//! Rewriting an expression in place, its parts before the whole.

use crate::desugar::desugared_ast::{
    DomainBound, Expr, ExprKind, FieldInit, GenericArg, IndexArg, MapEntry, MapEntryKey, MatchArm, ParamBinding,
    TypeExpr, TypeExprKind,
};
use vstd::prelude::*;

verus! {

/// How a visitor rewrites.
pub struct Rewriting {
    /// The expressions that are not refused.
    pub accepts: spec_fn(Expr) -> bool,
    /// The expressions whose parts are left as they are.
    pub skips: spec_fn(Expr) -> bool,
    /// What may become of an expression, once its parts are rewritten.
    pub rule: spec_fn(Expr, Expr) -> bool,
}

/// Something that rewrites expressions. How it does so is for proofs alone.
pub trait ExprVisitorMut: Sized {
    type Error;

    /// Whether the methods do what is stated of them. An impl whose own
    /// behaviour is not proved leaves this and what follows out; nothing is then
    /// stated of rewriting with it.
    open spec fn obeys() -> bool {
        false
    }

    open spec fn rewriting(&self) -> Rewriting {
        Rewriting { accepts: |e: Expr| true, skips: |e: Expr| false, rule: |a: Expr, b: Expr| true }
    }

    /// What is left of an expression that is refused, and with which error.
    open spec fn stops(&self) -> spec_fn(Expr, Expr, Self::Error) -> bool {
        |a: Expr, b: Expr, error: Self::Error| true
    }

    /// Rewrites a reference.
    fn rewrite(&mut self, expr: &mut Expr) -> (r: Result<(), Self::Error>)
        ensures
            Self::obeys() ==> final(self).rewriting() == old(self).rewriting(),
            Self::obeys() ==> final(self).stops() == old(self).stops(),
            Self::obeys() ==> r is Ok == (old(self).rewriting().accepts)(*old(expr)),
            Self::obeys() ==> r is Ok ==> (old(self).rewriting().rule)(*old(expr), *final(expr)),
            Self::obeys() ==> r is Err ==> old(self).stops()(*old(expr), *final(expr), r->Err_0),
    ;

    /// Looks at any other expression before its parts: whether those are
    /// rewritten.
    fn enter(&mut self, expr: &Expr) -> (r: Result<bool, Self::Error>)
        ensures
            Self::obeys() ==> final(self).rewriting() == old(self).rewriting(),
            Self::obeys() ==> final(self).stops() == old(self).stops(),
            Self::obeys() ==> r is Ok == (old(self).rewriting().accepts)(*expr),
            Self::obeys() ==> r is Ok ==> r->Ok_0 == !(old(self).rewriting().skips)(*expr),
            Self::obeys() ==> r is Err ==> old(self).stops()(*expr, *expr, r->Err_0),
    ;

    /// Rewrites an expression that was entered, after its parts.
    fn leave(&mut self, expr: &mut Expr)
        ensures
            Self::obeys() ==> final(self).rewriting() == old(self).rewriting(),
            Self::obeys() ==> final(self).stops() == old(self).stops(),
            Self::obeys() ==> (old(self).rewriting().rule)(*old(expr), *final(expr)),
    ;
}

/// Whether an expression is rewritten as a whole.
pub open spec fn is_leaf(e: Expr) -> bool {
    e.kind is GraphRef || e.kind is UnresolvedRef
}

/// Whether `b` is `a` rewritten: its parts, where they are not left out, and
/// what they make up.
pub open spec fn rewritten(how: Rewriting, a: Expr, b: Expr) -> bool
    decreases a, 1nat,
{
    if is_leaf(a) || (how.skips)(a) {
        (how.rule)(a, b)
    } else {
        exists|m: Expr| a.span == m.span && rewritten_kind(how, a, m) && #[trigger] (how.rule)(m, b)
    }
}

pub open spec fn rewritten_kind(how: Rewriting, a: Expr, b: Expr) -> bool
    decreases a, 0nat,
{
    match (a.kind, b.kind) {
        (
            ExprKind::InlineDagRef { path, args, output },
            ExprKind::InlineDagRef { path: path_, args: args_, output: output_ },
        ) => path == path_ && rewritten_bindings(how, args, args_) && output == output_,
        (
            ExprKind::FnCall { callee, generic_args, args },
            ExprKind::FnCall { callee: callee_, generic_args: generic_args_, args: args_ },
        ) => callee == callee_ && rewritten_generic_args(how, generic_args, generic_args_)
            && rewritten_exprs(how, args, args_),
        (
            ExprKind::BinOp { op, lhs, rhs },
            ExprKind::BinOp { op: op_, lhs: lhs_, rhs: rhs_ },
        ) => op == op_ && rewritten(how, *lhs, *lhs_) && rewritten(how, *rhs, *rhs_),
        (
            ExprKind::UnaryOp { op, operand },
            ExprKind::UnaryOp { op: op_, operand: operand_ },
        ) => op == op_ && rewritten(how, *operand, *operand_),
        (
            ExprKind::If { condition, then_branch, else_branch },
            ExprKind::If { condition: condition_, then_branch: then_branch_, else_branch: else_branch_ },
        ) => rewritten(how, *condition, *condition_) && rewritten(how, *then_branch, *then_branch_)
            && rewritten(how, *else_branch, *else_branch_),
        (
            ExprKind::Convert { expr, target },
            ExprKind::Convert { expr: expr_, target: target_ },
        ) => rewritten(how, *expr, *expr_) && target == target_,
        (
            ExprKind::DisplayTimezone { expr, timezone },
            ExprKind::DisplayTimezone { expr: expr_, timezone: timezone_ },
        ) => rewritten(how, *expr, *expr_) && timezone == timezone_,
        (
            ExprKind::FieldAccess { expr, field },
            ExprKind::FieldAccess { expr: expr_, field: field_ },
        ) => rewritten(how, *expr, *expr_) && field == field_,
        (
            ExprKind::IndexAccess { expr, args },
            ExprKind::IndexAccess { expr: expr_, args: args_ },
        ) => rewritten(how, *expr, *expr_) && rewritten_arg(how, *args.first, *args_.first)
            && rewritten_args(how, args.rest, args_.rest),
        (
            ExprKind::ConstructorCall { callee, generic_args, fields },
            ExprKind::ConstructorCall { callee: callee_, generic_args: generic_args_, fields: fields_ },
        ) => callee == callee_ && rewritten_generic_args(how, generic_args, generic_args_)
            && rewritten_fields(how, fields, fields_),
        (
            ExprKind::MapLiteral { entries },
            ExprKind::MapLiteral { entries: entries_ },
        ) => rewritten_entries(how, entries, entries_),
        (
            ExprKind::ForComp { bindings, body },
            ExprKind::ForComp { bindings: bindings_, body: body_ },
        ) => bindings == bindings_ && rewritten(how, *body, *body_),
        (
            ExprKind::Scan { source, init, acc_name, val_name, body },
            ExprKind::Scan { source: source_, init: init_, acc_name: acc_name_, val_name: val_name_, body: body_ },
        ) => rewritten(how, *source, *source_) && rewritten(how, *init, *init_) && acc_name == acc_name_
            && val_name == val_name_ && rewritten(how, *body, *body_),
        (
            ExprKind::Unfold { axis, init, prev_state_name, prev_index_name, index_name, body },
            ExprKind::Unfold {
                axis: axis_,
                init: init_,
                prev_state_name: prev_state_name_,
                prev_index_name: prev_index_name_,
                index_name: index_name_,
                body: body_,
            },
        ) => axis == axis_ && rewritten(how, *init, *init_) && prev_state_name == prev_state_name_
            && prev_index_name == prev_index_name_ && index_name == index_name_ && rewritten(how, *body, *body_),
        (
            ExprKind::KeyForm { kind, axis, arg },
            ExprKind::KeyForm { kind: kind_, axis: axis_, arg: arg_ },
        ) => kind == kind_ && axis == axis_ && rewritten(how, *arg, *arg_),
        (
            ExprKind::Match { scrutinee, arms },
            ExprKind::Match { scrutinee: scrutinee_, arms: arms_ },
        ) => rewritten(how, *scrutinee, *scrutinee_) && rewritten_arms(how, arms, arms_),
        (ExprKind::Number(_), _) => a.kind == b.kind,
        (ExprKind::Integer(_), _) => a.kind == b.kind,
        (ExprKind::Bool(_), _) => a.kind == b.kind,
        (ExprKind::StringLiteral(_), _) => a.kind == b.kind,
        (ExprKind::QuantityLiteral { value, unit }, _) => a.kind == b.kind,
        _ => false,
    }
}

/// Whether `b` is what is left of `a` after something in it was refused with an
/// error: what comes before is rewritten, what comes after is as it was.
pub open spec fn partly<E>(how: Rewriting, stops: spec_fn(Expr, Expr, E) -> bool, a: Expr, b: Expr, error: E) -> bool
    decreases a, 1nat,
{
    if !(how.accepts)(a) {
        stops(a, b, error) && (is_leaf(a) || a == b)
    } else {
        !is_leaf(a) && !(how.skips)(a) && a.span == b.span && partly_kind(how, stops, a, b, error)
    }
}

pub open spec fn partly_kind<E>(
    how: Rewriting,
    stops: spec_fn(Expr, Expr, E) -> bool,
    a: Expr,
    b: Expr,
    error: E,
) -> bool
    decreases a, 0nat,
{
    match (a.kind, b.kind) {
        (
            ExprKind::InlineDagRef { path, args, output },
            ExprKind::InlineDagRef { path: path_, args: args_, output: output_ },
        ) => path == path_ && output == output_ && partly_bindings(how, stops, args, args_, error),
        (
            ExprKind::FnCall { callee, generic_args, args },
            ExprKind::FnCall { callee: callee_, generic_args: generic_args_, args: args_ },
        ) => {
            &&& callee == callee_
            &&& {
                ||| partly_generic_args(how, stops, generic_args, generic_args_, error) && args == args_
                ||| rewritten_generic_args(how, generic_args, generic_args_)
                    && partly_exprs(how, stops, args, args_, error)
            }
        },
        (
            ExprKind::BinOp { op, lhs, rhs },
            ExprKind::BinOp { op: op_, lhs: lhs_, rhs: rhs_ },
        ) => {
            &&& op == op_
            &&& {
                ||| partly(how, stops, *lhs, *lhs_, error) && *rhs == *rhs_
                ||| rewritten(how, *lhs, *lhs_) && partly(how, stops, *rhs, *rhs_, error)
            }
        },
        (
            ExprKind::UnaryOp { op, operand },
            ExprKind::UnaryOp { op: op_, operand: operand_ },
        ) => op == op_ && partly(how, stops, *operand, *operand_, error),
        (
            ExprKind::If { condition, then_branch, else_branch },
            ExprKind::If { condition: condition_, then_branch: then_branch_, else_branch: else_branch_ },
        ) => {
            ||| partly(how, stops, *condition, *condition_, error) && *then_branch == *then_branch_
                && *else_branch == *else_branch_
            ||| rewritten(how, *condition, *condition_) && partly(how, stops, *then_branch, *then_branch_, error)
                && *else_branch == *else_branch_
            ||| rewritten(how, *condition, *condition_) && rewritten(how, *then_branch, *then_branch_)
                && partly(how, stops, *else_branch, *else_branch_, error)
        },
        (
            ExprKind::Convert { expr, target },
            ExprKind::Convert { expr: expr_, target: target_ },
        ) => target == target_ && partly(how, stops, *expr, *expr_, error),
        (
            ExprKind::DisplayTimezone { expr, timezone },
            ExprKind::DisplayTimezone { expr: expr_, timezone: timezone_ },
        ) => timezone == timezone_ && partly(how, stops, *expr, *expr_, error),
        (
            ExprKind::FieldAccess { expr, field },
            ExprKind::FieldAccess { expr: expr_, field: field_ },
        ) => field == field_ && partly(how, stops, *expr, *expr_, error),
        (
            ExprKind::IndexAccess { expr, args },
            ExprKind::IndexAccess { expr: expr_, args: args_ },
        ) => {
            ||| partly(how, stops, *expr, *expr_, error) && *args.first == *args_.first && args.rest == args_.rest
            ||| rewritten(how, *expr, *expr_) && partly_arg(how, stops, *args.first, *args_.first, error)
                && args.rest == args_.rest
            ||| rewritten(how, *expr, *expr_) && rewritten_arg(how, *args.first, *args_.first)
                && partly_args(how, stops, args.rest, args_.rest, error)
        },
        (
            ExprKind::ConstructorCall { callee, generic_args, fields },
            ExprKind::ConstructorCall { callee: callee_, generic_args: generic_args_, fields: fields_ },
        ) => {
            &&& callee == callee_
            &&& {
                ||| partly_generic_args(how, stops, generic_args, generic_args_, error) && fields == fields_
                ||| rewritten_generic_args(how, generic_args, generic_args_)
                    && partly_fields(how, stops, fields, fields_, error)
            }
        },
        (
            ExprKind::MapLiteral { entries },
            ExprKind::MapLiteral { entries: entries_ },
        ) => partly_entries(how, stops, entries, entries_, error),
        (
            ExprKind::ForComp { bindings, body },
            ExprKind::ForComp { bindings: bindings_, body: body_ },
        ) => bindings == bindings_ && partly(how, stops, *body, *body_, error),
        (
            ExprKind::Scan { source, init, acc_name, val_name, body },
            ExprKind::Scan { source: source_, init: init_, acc_name: acc_name_, val_name: val_name_, body: body_ },
        ) => {
            &&& acc_name == acc_name_
            &&& val_name == val_name_
            &&& {
                ||| partly(how, stops, *source, *source_, error) && *init == *init_ && *body == *body_
                ||| rewritten(how, *source, *source_) && partly(how, stops, *init, *init_, error) && *body == *body_
                ||| rewritten(how, *source, *source_) && rewritten(how, *init, *init_)
                    && partly(how, stops, *body, *body_, error)
            }
        },
        (
            ExprKind::Unfold { axis, init, prev_state_name, prev_index_name, index_name, body },
            ExprKind::Unfold {
                axis: axis_,
                init: init_,
                prev_state_name: prev_state_name_,
                prev_index_name: prev_index_name_,
                index_name: index_name_,
                body: body_,
            },
        ) => {
            &&& axis == axis_
            &&& prev_state_name == prev_state_name_
            &&& prev_index_name == prev_index_name_
            &&& index_name == index_name_
            &&& {
                ||| partly(how, stops, *init, *init_, error) && *body == *body_
                ||| rewritten(how, *init, *init_) && partly(how, stops, *body, *body_, error)
            }
        },
        (
            ExprKind::KeyForm { kind, axis, arg },
            ExprKind::KeyForm { kind: kind_, axis: axis_, arg: arg_ },
        ) => kind == kind_ && axis == axis_ && partly(how, stops, *arg, *arg_, error),
        (
            ExprKind::Match { scrutinee, arms },
            ExprKind::Match { scrutinee: scrutinee_, arms: arms_ },
        ) => {
            ||| partly(how, stops, *scrutinee, *scrutinee_, error) && arms == arms_
            ||| rewritten(how, *scrutinee, *scrutinee_) && partly_arms(how, stops, arms, arms_, error)
        },
        _ => false,
    }
}

pub open spec fn partly_arg<E>(
    how: Rewriting,
    stops: spec_fn(Expr, Expr, E) -> bool,
    a: IndexArg,
    b: IndexArg,
    error: E,
) -> bool
    decreases a,
{
    match (a, b) {
        (IndexArg::Expr(e), IndexArg::Expr(f)) => partly(how, stops, *e, *f, error),
        _ => false,
    }
}

pub open spec fn partly_key<E>(
    how: Rewriting,
    stops: spec_fn(Expr, Expr, E) -> bool,
    a: MapEntryKey,
    b: MapEntryKey,
    error: E,
) -> bool
    decreases a,
{
    match (a, b) {
        (
            MapEntryKey::Expression { axis, expr },
            MapEntryKey::Expression { axis: axis_, expr: expr_ },
        ) => axis == axis_ && partly(how, stops, expr, expr_, error),
        _ => false,
    }
}

pub open spec fn partly_entry<E>(
    how: Rewriting,
    stops: spec_fn(Expr, Expr, E) -> bool,
    a: MapEntry,
    b: MapEntry,
    error: E,
) -> bool
    decreases a,
{
    ||| partly_key(how, stops, *a.keys.first, *b.keys.first, error) && a.keys.rest == b.keys.rest
        && a.value == b.value
    ||| rewritten_key(how, *a.keys.first, *b.keys.first) && partly_keys(how, stops, a.keys.rest, b.keys.rest, error)
        && a.value == b.value
    ||| rewritten_key(how, *a.keys.first, *b.keys.first) && rewritten_keys(how, a.keys.rest, b.keys.rest)
        && partly(how, stops, a.value, b.value, error)
}

pub open spec fn partly_generic_arg<E>(
    how: Rewriting,
    stops: spec_fn(Expr, Expr, E) -> bool,
    a: GenericArg,
    b: GenericArg,
    error: E,
) -> bool
    decreases a,
{
    match (a, b) {
        (GenericArg::Type(t), GenericArg::Type(u)) => partly_type(how, stops, t, u, error),
        _ => false,
    }
}

pub open spec fn partly_type<E>(
    how: Rewriting,
    stops: spec_fn(Expr, Expr, E) -> bool,
    a: TypeExpr,
    b: TypeExpr,
    error: E,
) -> bool
    decreases a,
{
    &&& a.span == b.span
    &&& {
        ||| partly_bounds(how, stops, a.constraints, b.constraints, error) && a.kind == b.kind
        ||| rewritten_bounds(how, a.constraints, b.constraints) && partly_type_kind(how, stops, a.kind, b.kind, error)
    }
}

pub open spec fn partly_type_kind<E>(
    how: Rewriting,
    stops: spec_fn(Expr, Expr, E) -> bool,
    a: TypeExprKind,
    b: TypeExprKind,
    error: E,
) -> bool
    decreases a,
{
    match (a, b) {
        (
            TypeExprKind::DatetimeApplication { type_args },
            TypeExprKind::DatetimeApplication { type_args: type_args_ },
        ) => {
            ||| partly_type(how, stops, *type_args.first, *type_args_.first, error)
                && type_args.rest == type_args_.rest
            ||| rewritten_type(how, *type_args.first, *type_args_.first)
                && partly_types(how, stops, type_args.rest, type_args_.rest, error)
        },
        (
            TypeExprKind::TypeApplication { name, generic_args },
            TypeExprKind::TypeApplication { name: name_, generic_args: generic_args_ },
        ) => {
            &&& name == name_
            &&& {
                ||| partly_generic_arg(how, stops, *generic_args.first, *generic_args_.first, error)
                    && generic_args.rest == generic_args_.rest
                ||| rewritten_generic_arg(how, *generic_args.first, *generic_args_.first)
                    && partly_generic_args(how, stops, generic_args.rest, generic_args_.rest, error)
            }
        },
        (
            TypeExprKind::ComplexApplication { generic_args },
            TypeExprKind::ComplexApplication { generic_args: generic_args_ },
        ) => partly_generic_args(how, stops, generic_args, generic_args_, error),
        (
            TypeExprKind::KeyApplication { generic_args },
            TypeExprKind::KeyApplication { generic_args: generic_args_ },
        ) => partly_generic_args(how, stops, generic_args, generic_args_, error),
        (
            TypeExprKind::Indexed { base, indexes },
            TypeExprKind::Indexed { base: base_, indexes: indexes_ },
        ) => indexes == indexes_ && partly_type(how, stops, *base, *base_, error),
        _ => false,
    }
}

pub open spec fn partly_exprs<E>(
    how: Rewriting,
    stops: spec_fn(Expr, Expr, E) -> bool,
    v: Vec<Expr>,
    w: Vec<Expr>,
    error: E,
) -> bool
    decreases v,
{
    &&& v.len() == w.len()
    &&& exists|k: int|
        {
            &&& 0 <= k < v.len()
            &&& partly(how, stops, (#[trigger] v[k]), w[k], error)
            &&& forall|j: int| 0 <= j < k ==> rewritten(how, (#[trigger] v[j]), w[j])
            &&& forall|j: int| k < j < v.len() ==> #[trigger] v[j] == w[j]
        }
}

pub open spec fn partly_bindings<E>(
    how: Rewriting,
    stops: spec_fn(Expr, Expr, E) -> bool,
    v: Vec<ParamBinding>,
    w: Vec<ParamBinding>,
    error: E,
) -> bool
    decreases v,
{
    &&& v.len() == w.len()
    &&& exists|k: int|
        {
            &&& 0 <= k < v.len()
            &&& (#[trigger] v[k]).name == w[k].name && v[k].span == w[k].span
                && partly(how, stops, v[k].value, w[k].value, error)
            &&& forall|j: int| 0 <= j < k ==> (#[trigger] v[j]).name == w[j].name && v[j].span == w[j].span
                && rewritten(how, v[j].value, w[j].value)
            &&& forall|j: int| k < j < v.len() ==> #[trigger] v[j] == w[j]
        }
}

pub open spec fn partly_fields<E>(
    how: Rewriting,
    stops: spec_fn(Expr, Expr, E) -> bool,
    v: Vec<FieldInit>,
    w: Vec<FieldInit>,
    error: E,
) -> bool
    decreases v,
{
    &&& v.len() == w.len()
    &&& exists|k: int|
        {
            &&& 0 <= k < v.len()
            &&& (#[trigger] v[k]).name == w[k].name && partly(how, stops, v[k].value, w[k].value, error)
            &&& forall|j: int| 0 <= j < k ==> (#[trigger] v[j]).name == w[j].name
                && rewritten(how, v[j].value, w[j].value)
            &&& forall|j: int| k < j < v.len() ==> #[trigger] v[j] == w[j]
        }
}

pub open spec fn partly_arms<E>(
    how: Rewriting,
    stops: spec_fn(Expr, Expr, E) -> bool,
    v: Vec<MatchArm>,
    w: Vec<MatchArm>,
    error: E,
) -> bool
    decreases v,
{
    &&& v.len() == w.len()
    &&& exists|k: int|
        {
            &&& 0 <= k < v.len()
            &&& (#[trigger] v[k]).pattern == w[k].pattern && v[k].span == w[k].span
                && partly(how, stops, v[k].body, w[k].body, error)
            &&& forall|j: int| 0 <= j < k ==> (#[trigger] v[j]).pattern == w[j].pattern && v[j].span == w[j].span
                && rewritten(how, v[j].body, w[j].body)
            &&& forall|j: int| k < j < v.len() ==> #[trigger] v[j] == w[j]
        }
}

pub open spec fn partly_bounds<E>(
    how: Rewriting,
    stops: spec_fn(Expr, Expr, E) -> bool,
    v: Vec<DomainBound>,
    w: Vec<DomainBound>,
    error: E,
) -> bool
    decreases v,
{
    &&& v.len() == w.len()
    &&& exists|k: int|
        {
            &&& 0 <= k < v.len()
            &&& (#[trigger] v[k]).kind == w[k].kind && v[k].kind_span == w[k].kind_span && v[k].span == w[k].span
                && partly(how, stops, v[k].value, w[k].value, error)
            &&& forall|j: int| 0 <= j < k ==> (#[trigger] v[j]).kind == w[j].kind && v[j].kind_span == w[j].kind_span
                && v[j].span == w[j].span && rewritten(how, v[j].value, w[j].value)
            &&& forall|j: int| k < j < v.len() ==> #[trigger] v[j] == w[j]
        }
}

pub open spec fn partly_args<E>(
    how: Rewriting,
    stops: spec_fn(Expr, Expr, E) -> bool,
    v: Vec<IndexArg>,
    w: Vec<IndexArg>,
    error: E,
) -> bool
    decreases v,
{
    &&& v.len() == w.len()
    &&& exists|k: int|
        {
            &&& 0 <= k < v.len()
            &&& partly_arg(how, stops, (#[trigger] v[k]), w[k], error)
            &&& forall|j: int| 0 <= j < k ==> rewritten_arg(how, (#[trigger] v[j]), w[j])
            &&& forall|j: int| k < j < v.len() ==> #[trigger] v[j] == w[j]
        }
}

pub open spec fn partly_keys<E>(
    how: Rewriting,
    stops: spec_fn(Expr, Expr, E) -> bool,
    v: Vec<MapEntryKey>,
    w: Vec<MapEntryKey>,
    error: E,
) -> bool
    decreases v,
{
    &&& v.len() == w.len()
    &&& exists|k: int|
        {
            &&& 0 <= k < v.len()
            &&& partly_key(how, stops, (#[trigger] v[k]), w[k], error)
            &&& forall|j: int| 0 <= j < k ==> rewritten_key(how, (#[trigger] v[j]), w[j])
            &&& forall|j: int| k < j < v.len() ==> #[trigger] v[j] == w[j]
        }
}

pub open spec fn partly_entries<E>(
    how: Rewriting,
    stops: spec_fn(Expr, Expr, E) -> bool,
    v: Vec<MapEntry>,
    w: Vec<MapEntry>,
    error: E,
) -> bool
    decreases v,
{
    &&& v.len() == w.len()
    &&& exists|k: int|
        {
            &&& 0 <= k < v.len()
            &&& partly_entry(how, stops, (#[trigger] v[k]), w[k], error)
            &&& forall|j: int| 0 <= j < k ==> rewritten_entry(how, (#[trigger] v[j]), w[j])
            &&& forall|j: int| k < j < v.len() ==> #[trigger] v[j] == w[j]
        }
}

pub open spec fn partly_generic_args<E>(
    how: Rewriting,
    stops: spec_fn(Expr, Expr, E) -> bool,
    v: Vec<GenericArg>,
    w: Vec<GenericArg>,
    error: E,
) -> bool
    decreases v,
{
    &&& v.len() == w.len()
    &&& exists|k: int|
        {
            &&& 0 <= k < v.len()
            &&& partly_generic_arg(how, stops, (#[trigger] v[k]), w[k], error)
            &&& forall|j: int| 0 <= j < k ==> rewritten_generic_arg(how, (#[trigger] v[j]), w[j])
            &&& forall|j: int| k < j < v.len() ==> #[trigger] v[j] == w[j]
        }
}

pub open spec fn partly_types<E>(
    how: Rewriting,
    stops: spec_fn(Expr, Expr, E) -> bool,
    v: Vec<TypeExpr>,
    w: Vec<TypeExpr>,
    error: E,
) -> bool
    decreases v,
{
    &&& v.len() == w.len()
    &&& exists|k: int|
        {
            &&& 0 <= k < v.len()
            &&& partly_type(how, stops, (#[trigger] v[k]), w[k], error)
            &&& forall|j: int| 0 <= j < k ==> rewritten_type(how, (#[trigger] v[j]), w[j])
            &&& forall|j: int| k < j < v.len() ==> #[trigger] v[j] == w[j]
        }
}

/// Whether nothing that is visited in an expression is refused.
pub open spec fn accepted(how: Rewriting, e: Expr) -> bool
    decreases e, 1nat,
{
    (how.accepts)(e) && (is_leaf(e) || (how.skips)(e) || accepted_kind(how, e))
}

pub open spec fn accepted_kind(how: Rewriting, e: Expr) -> bool
    decreases e, 0nat,
{
    match e.kind {
        ExprKind::InlineDagRef { path, args, output } => accepted_bindings(how, args),
        ExprKind::FnCall { callee, generic_args, args } => accepted_generic_args(
            how,
            generic_args,
        ) && accepted_exprs(how, args),
        ExprKind::BinOp { op, lhs, rhs } => accepted(how, *lhs) && accepted(how, *rhs),
        ExprKind::UnaryOp { op, operand } => accepted(how, *operand),
        ExprKind::If { condition, then_branch, else_branch } => accepted(how, *condition) && accepted(
            how,
            *then_branch,
        ) && accepted(how, *else_branch),
        ExprKind::Convert { expr, target } => accepted(how, *expr),
        ExprKind::DisplayTimezone { expr, timezone } => accepted(how, *expr),
        ExprKind::FieldAccess { expr, field } => accepted(how, *expr),
        ExprKind::IndexAccess { expr, args } => accepted(how, *expr) && accepted_arg(
            how,
            *args.first,
        ) && accepted_args(how, args.rest),
        ExprKind::ConstructorCall {
            callee,
            generic_args,
            fields,
        } => accepted_generic_args(how, generic_args) && accepted_fields(how, fields),
        ExprKind::MapLiteral { entries } => accepted_entries(how, entries),
        ExprKind::ForComp { bindings, body } => accepted(how, *body),
        ExprKind::Scan { source, init, acc_name, val_name, body } => accepted(
            how,
            *source,
        ) && accepted(how, *init) && accepted(how, *body),
        ExprKind::Unfold { axis, init, prev_state_name, prev_index_name, index_name, body } => accepted(how, *init)
            && accepted(how, *body),
        ExprKind::KeyForm { kind, axis, arg } => accepted(how, *arg),
        ExprKind::Match { scrutinee, arms } => accepted(how, *scrutinee) && accepted_arms(how, arms),
        _ => true,
    }
}

pub open spec fn rewritten_arg(how: Rewriting, a: IndexArg, b: IndexArg) -> bool
    decreases a,
{
    match (a, b) {
        (IndexArg::Expr(e), IndexArg::Expr(f)) => rewritten(how, *e, *f),
        (IndexArg::Expr(e), _) => false,
        _ => a == b,
    }
}

pub open spec fn accepted_arg(how: Rewriting, a: IndexArg) -> bool
    decreases a,
{
    match a {
        IndexArg::Expr(e) => accepted(how, *e),
        _ => true,
    }
}

pub open spec fn rewritten_key(how: Rewriting, a: MapEntryKey, b: MapEntryKey) -> bool
    decreases a,
{
    match (a, b) {
        (
            MapEntryKey::Expression { axis, expr },
            MapEntryKey::Expression { axis: axis_, expr: expr_ },
        ) => axis == axis_
            && rewritten(how, expr, expr_),
        (MapEntryKey::Expression { axis, expr }, _) => false,
        _ => a == b,
    }
}

pub open spec fn accepted_key(how: Rewriting, a: MapEntryKey) -> bool
    decreases a,
{
    match a {
        MapEntryKey::Expression { axis, expr } => accepted(how, expr),
        _ => true,
    }
}

pub open spec fn rewritten_entry(how: Rewriting, a: MapEntry, b: MapEntry) -> bool
    decreases a,
{
    rewritten_key(how, *a.keys.first, *b.keys.first) && rewritten_keys(how, a.keys.rest, b.keys.rest) && rewritten(
        how,
        a.value,
        b.value,
    )
}

pub open spec fn accepted_entry(how: Rewriting, a: MapEntry) -> bool
    decreases a,
{
    accepted_key(how, *a.keys.first) && accepted_keys(how, a.keys.rest) && accepted(how, a.value)
}

pub open spec fn rewritten_generic_arg(how: Rewriting, a: GenericArg, b: GenericArg) -> bool
    decreases a,
{
    match (a, b) {
        (GenericArg::Type(t), GenericArg::Type(u)) => rewritten_type(how, t, u),
        (GenericArg::Type(t), _) => false,
        _ => a == b,
    }
}

pub open spec fn accepted_generic_arg(how: Rewriting, a: GenericArg) -> bool
    decreases a,
{
    match a {
        GenericArg::Type(t) => accepted_type(how, t),
        _ => true,
    }
}

pub open spec fn rewritten_type(how: Rewriting, a: TypeExpr, b: TypeExpr) -> bool
    decreases a,
{
    a.span == b.span && rewritten_bounds(
        how,
        a.constraints,
        b.constraints,
    ) && rewritten_type_kind(how, a.kind, b.kind)
}

pub open spec fn rewritten_type_kind(how: Rewriting, a: TypeExprKind, b: TypeExprKind) -> bool
    decreases a,
{
    match (a, b) {
        (
            TypeExprKind::DatetimeApplication { type_args },
            TypeExprKind::DatetimeApplication { type_args: type_args_ },
        ) => rewritten_type(how, *type_args.first, *type_args_.first)
            && rewritten_types(how, type_args.rest, type_args_.rest),
        (
            TypeExprKind::TypeApplication { name, generic_args },
            TypeExprKind::TypeApplication { name: name_, generic_args: generic_args_ },
        ) => name == name_ && rewritten_generic_arg(how, *generic_args.first, *generic_args_.first)
            && rewritten_generic_args(how, generic_args.rest, generic_args_.rest),
        (
            TypeExprKind::ComplexApplication { generic_args },
            TypeExprKind::ComplexApplication { generic_args: generic_args_ },
        ) => rewritten_generic_args(how, generic_args, generic_args_),
        (
            TypeExprKind::KeyApplication { generic_args },
            TypeExprKind::KeyApplication { generic_args: generic_args_ },
        ) => rewritten_generic_args(how, generic_args, generic_args_),
        (
            TypeExprKind::Indexed { base, indexes },
            TypeExprKind::Indexed { base: base_, indexes: indexes_ },
        ) => rewritten_type(how, *base, *base_) && indexes == indexes_,
        (TypeExprKind::Dimensionless, _) => a == b,
        (TypeExprKind::Bool, _) => a == b,
        (TypeExprKind::Int, _) => a == b,
        (TypeExprKind::Datetime, _) => a == b,
        (TypeExprKind::DimExpr(_), _) => a == b,
        _ => false,
    }
}

pub open spec fn accepted_type(how: Rewriting, a: TypeExpr) -> bool
    decreases a,
{
    accepted_bounds(how, a.constraints) && accepted_type_kind(how, a.kind)
}

pub open spec fn accepted_type_kind(how: Rewriting, a: TypeExprKind) -> bool
    decreases a,
{
    match a {
        TypeExprKind::DatetimeApplication { type_args } => accepted_type(
            how,
            *type_args.first,
        ) && accepted_types(how, type_args.rest),
        TypeExprKind::TypeApplication { name, generic_args } => accepted_generic_arg(
            how,
            *generic_args.first,
        ) && accepted_generic_args(how, generic_args.rest),
        TypeExprKind::ComplexApplication { generic_args } => accepted_generic_args(how, generic_args),
        TypeExprKind::KeyApplication { generic_args } => accepted_generic_args(how, generic_args),
        TypeExprKind::Indexed { base, indexes } => accepted_type(how, *base),
        _ => true,
    }
}

pub open spec fn rewritten_exprs(how: Rewriting, v: Vec<Expr>, w: Vec<Expr>) -> bool
    decreases v,
{
    v.len() == w.len() && forall|i: int| 0 <= i < v.len() ==> rewritten(how, (#[trigger] v[i]), w[i])
}

pub open spec fn accepted_exprs(how: Rewriting, v: Vec<Expr>) -> bool
    decreases v,
{
    forall|i: int| 0 <= i < v.len() ==> accepted(how, (#[trigger] v[i]))
}

pub open spec fn rewritten_bindings(
    how: Rewriting,
    v: Vec<ParamBinding>,
    w: Vec<ParamBinding>,
) -> bool
    decreases v,
{
    v.len() == w.len() && forall|i: int| 0 <= i < v.len() ==> (
        #[trigger] v[i]
    ).name == w[i].name && v[i].span == w[i].span && rewritten(how, v[i].value, w[i].value)
}

pub open spec fn accepted_bindings(how: Rewriting, v: Vec<ParamBinding>) -> bool
    decreases v,
{
    forall|i: int| 0 <= i < v.len() ==> accepted(how, (#[trigger] v[i]).value)
}

pub open spec fn rewritten_fields(how: Rewriting, v: Vec<FieldInit>, w: Vec<FieldInit>) -> bool
    decreases v,
{
    v.len() == w.len() && forall|i: int| 0 <= i < v.len() ==> (#[trigger] v[i]).name == w[i].name && rewritten(
        how,
        v[i].value,
        w[i].value,
    )
}

pub open spec fn accepted_fields(how: Rewriting, v: Vec<FieldInit>) -> bool
    decreases v,
{
    forall|i: int| 0 <= i < v.len() ==> accepted(how, (#[trigger] v[i]).value)
}

pub open spec fn rewritten_arms(how: Rewriting, v: Vec<MatchArm>, w: Vec<MatchArm>) -> bool
    decreases v,
{
    v.len() == w.len() && forall|i: int| 0 <= i < v.len() ==> (
        #[trigger] v[i]
    ).pattern == w[i].pattern && v[i].span == w[i].span && rewritten(how, v[i].body, w[i].body)
}

pub open spec fn accepted_arms(how: Rewriting, v: Vec<MatchArm>) -> bool
    decreases v,
{
    forall|i: int| 0 <= i < v.len() ==> accepted(how, (#[trigger] v[i]).body)
}

pub open spec fn rewritten_bounds(how: Rewriting, v: Vec<DomainBound>, w: Vec<DomainBound>) -> bool
    decreases v,
{
    v.len() == w.len() && forall|i: int| 0 <= i < v.len() ==> (
        #[trigger] v[i]
    ).kind == w[i].kind && v[i].kind_span == w[i].kind_span && v[i].span == w[i].span
        && rewritten(how, v[i].value, w[i].value)
}

pub open spec fn accepted_bounds(how: Rewriting, v: Vec<DomainBound>) -> bool
    decreases v,
{
    forall|i: int| 0 <= i < v.len() ==> accepted(how, (#[trigger] v[i]).value)
}

pub open spec fn rewritten_args(how: Rewriting, v: Vec<IndexArg>, w: Vec<IndexArg>) -> bool
    decreases v,
{
    v.len() == w.len() && forall|i: int| 0 <= i < v.len() ==> rewritten_arg(how, (#[trigger] v[i]), w[i])
}

pub open spec fn accepted_args(how: Rewriting, v: Vec<IndexArg>) -> bool
    decreases v,
{
    forall|i: int| 0 <= i < v.len() ==> accepted_arg(how, (#[trigger] v[i]))
}

pub open spec fn rewritten_keys(how: Rewriting, v: Vec<MapEntryKey>, w: Vec<MapEntryKey>) -> bool
    decreases v,
{
    v.len() == w.len() && forall|i: int| 0 <= i < v.len() ==> rewritten_key(how, (#[trigger] v[i]), w[i])
}

pub open spec fn accepted_keys(how: Rewriting, v: Vec<MapEntryKey>) -> bool
    decreases v,
{
    forall|i: int| 0 <= i < v.len() ==> accepted_key(how, (#[trigger] v[i]))
}

pub open spec fn rewritten_entries(how: Rewriting, v: Vec<MapEntry>, w: Vec<MapEntry>) -> bool
    decreases v,
{
    v.len() == w.len() && forall|i: int| 0 <= i < v.len() ==> rewritten_entry(how, (#[trigger] v[i]), w[i])
}

pub open spec fn accepted_entries(how: Rewriting, v: Vec<MapEntry>) -> bool
    decreases v,
{
    forall|i: int| 0 <= i < v.len() ==> accepted_entry(how, (#[trigger] v[i]))
}

pub open spec fn rewritten_generic_args(
    how: Rewriting,
    v: Vec<GenericArg>,
    w: Vec<GenericArg>,
) -> bool
    decreases v,
{
    v.len() == w.len() && forall|i: int| 0 <= i < v.len() ==> rewritten_generic_arg(how, (#[trigger] v[i]), w[i])
}

pub open spec fn accepted_generic_args(how: Rewriting, v: Vec<GenericArg>) -> bool
    decreases v,
{
    forall|i: int| 0 <= i < v.len() ==> accepted_generic_arg(how, (#[trigger] v[i]))
}

pub open spec fn rewritten_types(how: Rewriting, v: Vec<TypeExpr>, w: Vec<TypeExpr>) -> bool
    decreases v,
{
    v.len() == w.len() && forall|i: int| 0 <= i < v.len() ==> rewritten_type(how, (#[trigger] v[i]), w[i])
}

pub open spec fn accepted_types(how: Rewriting, v: Vec<TypeExpr>) -> bool
    decreases v,
{
    forall|i: int| 0 <= i < v.len() ==> accepted_type(how, (#[trigger] v[i]))
}

/// Rewrites an expression.
pub fn visit_expr_mut<V: ExprVisitorMut>(v: &mut V, e: &mut Expr) -> (r: Result<(), V::Error>)
    ensures
        V::obeys() ==> final(v).rewriting() == old(v).rewriting(),
        V::obeys() ==> final(v).stops() == old(v).stops(),
        V::obeys() ==> r is Ok == accepted(old(v).rewriting(), *old(e)),
        V::obeys() ==> r is Ok ==> rewritten(old(v).rewriting(), *old(e), *final(e)),
        V::obeys() ==> r is Err ==> partly(
            old(v).rewriting(),
            old(v).stops(),
            *old(e),
            *final(e),
            r->Err_0,
        ),
    decreases *old(e), 1nat,
{
    match &e.kind {
        ExprKind::GraphRef(_) => return v.rewrite(e),
        ExprKind::UnresolvedRef(_) => return v.rewrite(e),
        _ => {},
    }
    match v.enter(e) {
        Ok(true) => match visit_parts_mut(v, e) {
            Ok(_) => {},
            Err(error) => return Err(error),
        },
        Ok(false) => {},
        Err(error) => return Err(error),
    }
    v.leave(e);
    Ok(())
}

fn visit_parts_mut<V: ExprVisitorMut>(v: &mut V, e: &mut Expr) -> (r: Result<(), V::Error>)
    requires
        !is_leaf(*old(e)),
    ensures
        V::obeys() ==> final(v).rewriting() == old(v).rewriting(),
        V::obeys() ==> final(v).stops() == old(v).stops(),
        V::obeys() ==> r is Ok == accepted_kind(old(v).rewriting(), *old(e)),
        V::obeys() ==> r is Ok ==> rewritten_kind(old(v).rewriting(), *old(e), *final(e)),
        V::obeys() ==> r is Err ==> partly_kind(
            old(v).rewriting(),
            old(v).stops(),
            *old(e),
            *final(e),
            r->Err_0,
        ),
        final(e).span == old(e).span,
    decreases *old(e), 0nat,
{
    match &mut e.kind {
        ExprKind::InlineDagRef { path, args, output } => {
            visit_bindings_mut(v, args)
        },
        ExprKind::FnCall { callee, generic_args, args } => {
            match visit_generic_args_mut(v, generic_args) {
                Ok(_) => {},
                Err(error) => return Err(error),
            }
            visit_exprs_mut(v, args)
        },
        ExprKind::BinOp { op, lhs, rhs } => {
            match visit_expr_mut(v, lhs) {
                Ok(_) => {},
                Err(error) => return Err(error),
            }
            visit_expr_mut(v, rhs)
        },
        ExprKind::UnaryOp { op, operand } => {
            visit_expr_mut(v, operand)
        },
        ExprKind::If { condition, then_branch, else_branch } => {
            match visit_expr_mut(v, condition) {
                Ok(_) => {},
                Err(error) => return Err(error),
            }
            match visit_expr_mut(v, then_branch) {
                Ok(_) => {},
                Err(error) => return Err(error),
            }
            visit_expr_mut(v, else_branch)
        },
        ExprKind::Convert { expr, target } => {
            visit_expr_mut(v, expr)
        },
        ExprKind::DisplayTimezone { expr, timezone } => {
            visit_expr_mut(v, expr)
        },
        ExprKind::FieldAccess { expr, field } => {
            visit_expr_mut(v, expr)
        },
        ExprKind::IndexAccess { expr, args } => {
            match visit_expr_mut(v, expr) {
                Ok(_) => {},
                Err(error) => return Err(error),
            }
            match visit_arg_mut(v, &mut args.first) {
                Ok(_) => {},
                Err(error) => return Err(error),
            }
            visit_args_mut(v, &mut args.rest)
        },
        ExprKind::ConstructorCall { callee, generic_args, fields } => {
            match visit_generic_args_mut(v, generic_args) {
                Ok(_) => {},
                Err(error) => return Err(error),
            }
            visit_fields_mut(v, fields)
        },
        ExprKind::MapLiteral { entries } => {
            visit_entries_mut(v, entries)
        },
        ExprKind::ForComp { bindings, body } => {
            visit_expr_mut(v, body)
        },
        ExprKind::Scan { source, init, acc_name, val_name, body } => {
            match visit_expr_mut(v, source) {
                Ok(_) => {},
                Err(error) => return Err(error),
            }
            match visit_expr_mut(v, init) {
                Ok(_) => {},
                Err(error) => return Err(error),
            }
            visit_expr_mut(v, body)
        },
        ExprKind::Unfold { axis, init, prev_state_name, prev_index_name, index_name, body } => {
            match visit_expr_mut(v, init) {
                Ok(_) => {},
                Err(error) => return Err(error),
            }
            visit_expr_mut(v, body)
        },
        ExprKind::KeyForm { kind, axis, arg } => {
            visit_expr_mut(v, arg)
        },
        ExprKind::Match { scrutinee, arms } => {
            match visit_expr_mut(v, scrutinee) {
                Ok(_) => {},
                Err(error) => return Err(error),
            }
            visit_arms_mut(v, arms)
        },
        _ => Ok(()),
    }
}

fn visit_arg_mut<V: ExprVisitorMut>(v: &mut V, arg: &mut IndexArg) -> (r: Result<(), V::Error>)
    ensures
        V::obeys() ==> final(v).rewriting() == old(v).rewriting(),
        V::obeys() ==> final(v).stops() == old(v).stops(),
        V::obeys() ==> r is Ok == accepted_arg(old(v).rewriting(), *old(arg)),
        V::obeys() ==> r is Ok ==> rewritten_arg(old(v).rewriting(), *old(arg), *final(arg)),
        V::obeys() ==> r is Err ==> partly_arg(
            old(v).rewriting(),
            old(v).stops(),
            *old(arg),
            *final(arg),
            r->Err_0,
        ),
    decreases *old(arg),
{
    match arg {
        IndexArg::Expr(e) => visit_expr_mut(v, e),
        _ => Ok(()),
    }
}

fn visit_key_mut<V: ExprVisitorMut>(v: &mut V, key: &mut MapEntryKey) -> (r: Result<(), V::Error>)
    ensures
        V::obeys() ==> final(v).rewriting() == old(v).rewriting(),
        V::obeys() ==> final(v).stops() == old(v).stops(),
        V::obeys() ==> r is Ok == accepted_key(old(v).rewriting(), *old(key)),
        V::obeys() ==> r is Ok ==> rewritten_key(old(v).rewriting(), *old(key), *final(key)),
        V::obeys() ==> r is Err ==> partly_key(
            old(v).rewriting(),
            old(v).stops(),
            *old(key),
            *final(key),
            r->Err_0,
        ),
    decreases *old(key),
{
    match key {
        MapEntryKey::Expression { axis, expr } => visit_expr_mut(v, expr),
        _ => Ok(()),
    }
}

fn visit_entry_mut<V: ExprVisitorMut>(v: &mut V, entry: &mut MapEntry) -> (r: Result<(), V::Error>)
    ensures
        V::obeys() ==> final(v).rewriting() == old(v).rewriting(),
        V::obeys() ==> final(v).stops() == old(v).stops(),
        V::obeys() ==> r is Ok == accepted_entry(old(v).rewriting(), *old(entry)),
        V::obeys() ==> r is Ok ==> rewritten_entry(old(v).rewriting(), *old(entry), *final(entry)),
        V::obeys() ==> r is Err ==> partly_entry(
            old(v).rewriting(),
            old(v).stops(),
            *old(entry),
            *final(entry),
            r->Err_0,
        ),
    decreases *old(entry),
{
    match visit_key_mut(v, &mut entry.keys.first) {
        Ok(_) => {},
        Err(error) => return Err(error),
    }
    match visit_keys_mut(v, &mut entry.keys.rest) {
        Ok(_) => {},
        Err(error) => return Err(error),
    }
    visit_expr_mut(v, &mut entry.value)
}

fn visit_generic_arg_mut<V: ExprVisitorMut>(v: &mut V, arg: &mut GenericArg) -> (r: Result<(), V::Error>)
    ensures
        V::obeys() ==> final(v).rewriting() == old(v).rewriting(),
        V::obeys() ==> final(v).stops() == old(v).stops(),
        V::obeys() ==> r is Ok == accepted_generic_arg(old(v).rewriting(), *old(arg)),
        V::obeys() ==> r is Ok ==> rewritten_generic_arg(old(v).rewriting(), *old(arg), *final(arg)),
        V::obeys() ==> r is Err ==> partly_generic_arg(
            old(v).rewriting(),
            old(v).stops(),
            *old(arg),
            *final(arg),
            r->Err_0,
        ),
    decreases *old(arg),
{
    match arg {
        GenericArg::Type(t) => visit_type_expr_mut(v, t),
        _ => Ok(()),
    }
}

/// Rewrites the expressions in a type.
pub fn visit_type_expr_mut<V: ExprVisitorMut>(v: &mut V, t: &mut TypeExpr) -> (r: Result<(), V::Error>)
    ensures
        V::obeys() ==> final(v).rewriting() == old(v).rewriting(),
        V::obeys() ==> final(v).stops() == old(v).stops(),
        V::obeys() ==> r is Ok == accepted_type(old(v).rewriting(), *old(t)),
        V::obeys() ==> r is Ok ==> rewritten_type(old(v).rewriting(), *old(t), *final(t)),
        V::obeys() ==> r is Err ==> partly_type(
            old(v).rewriting(),
            old(v).stops(),
            *old(t),
            *final(t),
            r->Err_0,
        ),
    decreases *old(t),
{
    match visit_bounds_mut(v, &mut t.constraints) {
        Ok(_) => {},
        Err(error) => return Err(error),
    }
    visit_type_kind_mut(v, &mut t.kind)
}

fn visit_type_kind_mut<V: ExprVisitorMut>(v: &mut V, kind: &mut TypeExprKind) -> (r: Result<(), V::Error>)
    ensures
        V::obeys() ==> final(v).rewriting() == old(v).rewriting(),
        V::obeys() ==> final(v).stops() == old(v).stops(),
        V::obeys() ==> r is Ok == accepted_type_kind(old(v).rewriting(), *old(kind)),
        V::obeys() ==> r is Ok ==> rewritten_type_kind(old(v).rewriting(), *old(kind), *final(kind)),
        V::obeys() ==> r is Err ==> partly_type_kind(
            old(v).rewriting(),
            old(v).stops(),
            *old(kind),
            *final(kind),
            r->Err_0,
        ),
    decreases *old(kind),
{
    match kind {
        TypeExprKind::DatetimeApplication { type_args } => {
            match visit_type_expr_mut(v, &mut type_args.first) {
                Ok(_) => {},
                Err(error) => return Err(error),
            }
            visit_types_mut(v, &mut type_args.rest)
        },
        TypeExprKind::TypeApplication { name, generic_args } => {
            match visit_generic_arg_mut(v, &mut generic_args.first) {
                Ok(_) => {},
                Err(error) => return Err(error),
            }
            visit_generic_args_mut(v, &mut generic_args.rest)
        },
        TypeExprKind::ComplexApplication { generic_args } => {
            visit_generic_args_mut(v, generic_args)
        },
        TypeExprKind::KeyApplication { generic_args } => {
            visit_generic_args_mut(v, generic_args)
        },
        TypeExprKind::Indexed { base, indexes } => {
            visit_type_expr_mut(v, base)
        },
        _ => Ok(()),
    }
}

fn visit_exprs_mut<V: ExprVisitorMut>(v: &mut V, list: &mut Vec<Expr>) -> (r: Result<(), V::Error>)
    ensures
        V::obeys() ==> final(v).rewriting() == old(v).rewriting(),
        V::obeys() ==> final(v).stops() == old(v).stops(),
        V::obeys() ==> r is Ok == accepted_exprs(old(v).rewriting(), *old(list)),
        V::obeys() ==> r is Ok ==> rewritten_exprs(old(v).rewriting(), *old(list), *final(list)),
        V::obeys() ==> r is Err ==> partly_exprs(
            old(v).rewriting(),
            old(v).stops(),
            *old(list),
            *final(list),
            r->Err_0,
        ),
    decreases *old(list),
{
    let ghost before = *list;
    let ghost how = v.rewriting();
    let ghost stops = v.stops();
    let n = list.len();
    for i in 0..n
        invariant
            n == list.len(),
            n == before.len(),
            before == *old(list),
            V::obeys() ==> how == v.rewriting(),
            how == old(v).rewriting(),
            V::obeys() ==> stops == v.stops(),
            stops == old(v).stops(),
            V::obeys() ==> forall|j: int| 0 <= j < i ==> rewritten(how, (#[trigger] before[j]), list[j]),
            V::obeys() ==> forall|j: int| 0 <= j < i ==> accepted(how, (#[trigger] before[j])),
            forall|j: int| i <= j < n ==> list[j] == #[trigger] before[j],
    {
        let ghost middle = *list;
        assert(list[i as int] == before[i as int]);
        match visit_expr_mut(v, &mut list[i]) {
            Ok(_) => {
                assert forall|j: int| 0 <= j < n && j != i implies list[j] == #[trigger] middle[j] by {}
            },
            Err(error) => {
                assert(V::obeys() ==> !(accepted(how, before[i as int])));
                assert forall|j: int| i < j < n implies #[trigger] before[j] == list[j] by {
                    assert(list[j] == middle[j]);
                }
                assert forall|j: int| 0 <= j < i implies list[j] == #[trigger] middle[j] by {}
                assert(before[i as int] == before[i as int]);
                return Err(error);
            },
        }
    }
    Ok(())
}

fn visit_bindings_mut<V: ExprVisitorMut>(v: &mut V, list: &mut Vec<ParamBinding>) -> (r: Result<(), V::Error>)
    ensures
        V::obeys() ==> final(v).rewriting() == old(v).rewriting(),
        V::obeys() ==> final(v).stops() == old(v).stops(),
        V::obeys() ==> r is Ok == accepted_bindings(old(v).rewriting(), *old(list)),
        V::obeys() ==> r is Ok ==> rewritten_bindings(old(v).rewriting(), *old(list), *final(list)),
        V::obeys() ==> r is Err ==> partly_bindings(
            old(v).rewriting(),
            old(v).stops(),
            *old(list),
            *final(list),
            r->Err_0,
        ),
    decreases *old(list),
{
    let ghost before = *list;
    let ghost how = v.rewriting();
    let ghost stops = v.stops();
    let n = list.len();
    for i in 0..n
        invariant
            n == list.len(),
            n == before.len(),
            before == *old(list),
            V::obeys() ==> how == v.rewriting(),
            how == old(v).rewriting(),
            V::obeys() ==> stops == v.stops(),
            stops == old(v).stops(),
            V::obeys() ==> forall|j: int| 0 <= j < i ==> (
                #[trigger] before[j]
            ).name == list[j].name && before[j].span == list[j].span
                && rewritten(how, before[j].value, list[j].value),
            V::obeys() ==> forall|j: int| 0 <= j < i ==> accepted(how, (#[trigger] before[j]).value),
            forall|j: int| i <= j < n ==> list[j] == #[trigger] before[j],
    {
        let ghost middle = *list;
        assert(list[i as int] == before[i as int]);
        match visit_expr_mut(v, &mut list[i].value) {
            Ok(_) => {
                assert forall|j: int| 0 <= j < n && j != i implies list[j] == #[trigger] middle[j] by {}
            },
            Err(error) => {
                assert(V::obeys() ==> !(accepted(how, before[i as int].value)));
                assert forall|j: int| i < j < n implies #[trigger] before[j] == list[j] by {
                    assert(list[j] == middle[j]);
                }
                assert forall|j: int| 0 <= j < i implies list[j] == #[trigger] middle[j] by {}
                assert(before[i as int] == before[i as int]);
                return Err(error);
            },
        }
    }
    Ok(())
}

fn visit_fields_mut<V: ExprVisitorMut>(v: &mut V, list: &mut Vec<FieldInit>) -> (r: Result<(), V::Error>)
    ensures
        V::obeys() ==> final(v).rewriting() == old(v).rewriting(),
        V::obeys() ==> final(v).stops() == old(v).stops(),
        V::obeys() ==> r is Ok == accepted_fields(old(v).rewriting(), *old(list)),
        V::obeys() ==> r is Ok ==> rewritten_fields(old(v).rewriting(), *old(list), *final(list)),
        V::obeys() ==> r is Err ==> partly_fields(
            old(v).rewriting(),
            old(v).stops(),
            *old(list),
            *final(list),
            r->Err_0,
        ),
    decreases *old(list),
{
    let ghost before = *list;
    let ghost how = v.rewriting();
    let ghost stops = v.stops();
    let n = list.len();
    for i in 0..n
        invariant
            n == list.len(),
            n == before.len(),
            before == *old(list),
            V::obeys() ==> how == v.rewriting(),
            how == old(v).rewriting(),
            V::obeys() ==> stops == v.stops(),
            stops == old(v).stops(),
            V::obeys() ==> forall|j: int| 0 <= j < i ==> (#[trigger] before[j]).name == list[j].name && rewritten(
                how,
                before[j].value,
                list[j].value,
            ),
            V::obeys() ==> forall|j: int| 0 <= j < i ==> accepted(how, (#[trigger] before[j]).value),
            forall|j: int| i <= j < n ==> list[j] == #[trigger] before[j],
    {
        let ghost middle = *list;
        assert(list[i as int] == before[i as int]);
        match visit_expr_mut(v, &mut list[i].value) {
            Ok(_) => {
                assert forall|j: int| 0 <= j < n && j != i implies list[j] == #[trigger] middle[j] by {}
            },
            Err(error) => {
                assert(V::obeys() ==> !(accepted(how, before[i as int].value)));
                assert forall|j: int| i < j < n implies #[trigger] before[j] == list[j] by {
                    assert(list[j] == middle[j]);
                }
                assert forall|j: int| 0 <= j < i implies list[j] == #[trigger] middle[j] by {}
                assert(before[i as int] == before[i as int]);
                return Err(error);
            },
        }
    }
    Ok(())
}

fn visit_arms_mut<V: ExprVisitorMut>(v: &mut V, list: &mut Vec<MatchArm>) -> (r: Result<(), V::Error>)
    ensures
        V::obeys() ==> final(v).rewriting() == old(v).rewriting(),
        V::obeys() ==> final(v).stops() == old(v).stops(),
        V::obeys() ==> r is Ok == accepted_arms(old(v).rewriting(), *old(list)),
        V::obeys() ==> r is Ok ==> rewritten_arms(old(v).rewriting(), *old(list), *final(list)),
        V::obeys() ==> r is Err ==> partly_arms(
            old(v).rewriting(),
            old(v).stops(),
            *old(list),
            *final(list),
            r->Err_0,
        ),
    decreases *old(list),
{
    let ghost before = *list;
    let ghost how = v.rewriting();
    let ghost stops = v.stops();
    let n = list.len();
    for i in 0..n
        invariant
            n == list.len(),
            n == before.len(),
            before == *old(list),
            V::obeys() ==> how == v.rewriting(),
            how == old(v).rewriting(),
            V::obeys() ==> stops == v.stops(),
            stops == old(v).stops(),
            V::obeys() ==> forall|j: int| 0 <= j < i ==> (
                #[trigger] before[j]
            ).pattern == list[j].pattern && before[j].span == list[j].span
                && rewritten(how, before[j].body, list[j].body),
            V::obeys() ==> forall|j: int| 0 <= j < i ==> accepted(how, (#[trigger] before[j]).body),
            forall|j: int| i <= j < n ==> list[j] == #[trigger] before[j],
    {
        let ghost middle = *list;
        assert(list[i as int] == before[i as int]);
        match visit_expr_mut(v, &mut list[i].body) {
            Ok(_) => {
                assert forall|j: int| 0 <= j < n && j != i implies list[j] == #[trigger] middle[j] by {}
            },
            Err(error) => {
                assert(V::obeys() ==> !(accepted(how, before[i as int].body)));
                assert forall|j: int| i < j < n implies #[trigger] before[j] == list[j] by {
                    assert(list[j] == middle[j]);
                }
                assert forall|j: int| 0 <= j < i implies list[j] == #[trigger] middle[j] by {}
                assert(before[i as int] == before[i as int]);
                return Err(error);
            },
        }
    }
    Ok(())
}

fn visit_bounds_mut<V: ExprVisitorMut>(v: &mut V, list: &mut Vec<DomainBound>) -> (r: Result<(), V::Error>)
    ensures
        V::obeys() ==> final(v).rewriting() == old(v).rewriting(),
        V::obeys() ==> final(v).stops() == old(v).stops(),
        V::obeys() ==> r is Ok == accepted_bounds(old(v).rewriting(), *old(list)),
        V::obeys() ==> r is Ok ==> rewritten_bounds(old(v).rewriting(), *old(list), *final(list)),
        V::obeys() ==> r is Err ==> partly_bounds(
            old(v).rewriting(),
            old(v).stops(),
            *old(list),
            *final(list),
            r->Err_0,
        ),
    decreases *old(list),
{
    let ghost before = *list;
    let ghost how = v.rewriting();
    let ghost stops = v.stops();
    let n = list.len();
    for i in 0..n
        invariant
            n == list.len(),
            n == before.len(),
            before == *old(list),
            V::obeys() ==> how == v.rewriting(),
            how == old(v).rewriting(),
            V::obeys() ==> stops == v.stops(),
            stops == old(v).stops(),
            V::obeys() ==> forall|j: int| 0 <= j < i ==> (
                #[trigger] before[j]
            ).kind == list[j].kind && before[j].kind_span == list[j].kind_span && before[j].span == list[j].span
                && rewritten(how, before[j].value, list[j].value),
            V::obeys() ==> forall|j: int| 0 <= j < i ==> accepted(how, (#[trigger] before[j]).value),
            forall|j: int| i <= j < n ==> list[j] == #[trigger] before[j],
    {
        let ghost middle = *list;
        assert(list[i as int] == before[i as int]);
        match visit_expr_mut(v, &mut list[i].value) {
            Ok(_) => {
                assert forall|j: int| 0 <= j < n && j != i implies list[j] == #[trigger] middle[j] by {}
            },
            Err(error) => {
                assert(V::obeys() ==> !(accepted(how, before[i as int].value)));
                assert forall|j: int| i < j < n implies #[trigger] before[j] == list[j] by {
                    assert(list[j] == middle[j]);
                }
                assert forall|j: int| 0 <= j < i implies list[j] == #[trigger] middle[j] by {}
                assert(before[i as int] == before[i as int]);
                return Err(error);
            },
        }
    }
    Ok(())
}

fn visit_args_mut<V: ExprVisitorMut>(v: &mut V, list: &mut Vec<IndexArg>) -> (r: Result<(), V::Error>)
    ensures
        V::obeys() ==> final(v).rewriting() == old(v).rewriting(),
        V::obeys() ==> final(v).stops() == old(v).stops(),
        V::obeys() ==> r is Ok == accepted_args(old(v).rewriting(), *old(list)),
        V::obeys() ==> r is Ok ==> rewritten_args(old(v).rewriting(), *old(list), *final(list)),
        V::obeys() ==> r is Err ==> partly_args(
            old(v).rewriting(),
            old(v).stops(),
            *old(list),
            *final(list),
            r->Err_0,
        ),
    decreases *old(list),
{
    let ghost before = *list;
    let ghost how = v.rewriting();
    let ghost stops = v.stops();
    let n = list.len();
    for i in 0..n
        invariant
            n == list.len(),
            n == before.len(),
            before == *old(list),
            V::obeys() ==> how == v.rewriting(),
            how == old(v).rewriting(),
            V::obeys() ==> stops == v.stops(),
            stops == old(v).stops(),
            V::obeys() ==> forall|j: int| 0 <= j < i ==> rewritten_arg(how, (#[trigger] before[j]), list[j]),
            V::obeys() ==> forall|j: int| 0 <= j < i ==> accepted_arg(how, (#[trigger] before[j])),
            forall|j: int| i <= j < n ==> list[j] == #[trigger] before[j],
    {
        let ghost middle = *list;
        assert(list[i as int] == before[i as int]);
        match visit_arg_mut(v, &mut list[i]) {
            Ok(_) => {
                assert forall|j: int| 0 <= j < n && j != i implies list[j] == #[trigger] middle[j] by {}
            },
            Err(error) => {
                assert(V::obeys() ==> !(accepted_arg(how, before[i as int])));
                assert forall|j: int| i < j < n implies #[trigger] before[j] == list[j] by {
                    assert(list[j] == middle[j]);
                }
                assert forall|j: int| 0 <= j < i implies list[j] == #[trigger] middle[j] by {}
                assert(before[i as int] == before[i as int]);
                return Err(error);
            },
        }
    }
    Ok(())
}

fn visit_keys_mut<V: ExprVisitorMut>(v: &mut V, list: &mut Vec<MapEntryKey>) -> (r: Result<(), V::Error>)
    ensures
        V::obeys() ==> final(v).rewriting() == old(v).rewriting(),
        V::obeys() ==> final(v).stops() == old(v).stops(),
        V::obeys() ==> r is Ok == accepted_keys(old(v).rewriting(), *old(list)),
        V::obeys() ==> r is Ok ==> rewritten_keys(old(v).rewriting(), *old(list), *final(list)),
        V::obeys() ==> r is Err ==> partly_keys(
            old(v).rewriting(),
            old(v).stops(),
            *old(list),
            *final(list),
            r->Err_0,
        ),
    decreases *old(list),
{
    let ghost before = *list;
    let ghost how = v.rewriting();
    let ghost stops = v.stops();
    let n = list.len();
    for i in 0..n
        invariant
            n == list.len(),
            n == before.len(),
            before == *old(list),
            V::obeys() ==> how == v.rewriting(),
            how == old(v).rewriting(),
            V::obeys() ==> stops == v.stops(),
            stops == old(v).stops(),
            V::obeys() ==> forall|j: int| 0 <= j < i ==> rewritten_key(how, (#[trigger] before[j]), list[j]),
            V::obeys() ==> forall|j: int| 0 <= j < i ==> accepted_key(how, (#[trigger] before[j])),
            forall|j: int| i <= j < n ==> list[j] == #[trigger] before[j],
    {
        let ghost middle = *list;
        assert(list[i as int] == before[i as int]);
        match visit_key_mut(v, &mut list[i]) {
            Ok(_) => {
                assert forall|j: int| 0 <= j < n && j != i implies list[j] == #[trigger] middle[j] by {}
            },
            Err(error) => {
                assert(V::obeys() ==> !(accepted_key(how, before[i as int])));
                assert forall|j: int| i < j < n implies #[trigger] before[j] == list[j] by {
                    assert(list[j] == middle[j]);
                }
                assert forall|j: int| 0 <= j < i implies list[j] == #[trigger] middle[j] by {}
                assert(before[i as int] == before[i as int]);
                return Err(error);
            },
        }
    }
    Ok(())
}

fn visit_entries_mut<V: ExprVisitorMut>(v: &mut V, list: &mut Vec<MapEntry>) -> (r: Result<(), V::Error>)
    ensures
        V::obeys() ==> final(v).rewriting() == old(v).rewriting(),
        V::obeys() ==> final(v).stops() == old(v).stops(),
        V::obeys() ==> r is Ok == accepted_entries(old(v).rewriting(), *old(list)),
        V::obeys() ==> r is Ok ==> rewritten_entries(old(v).rewriting(), *old(list), *final(list)),
        V::obeys() ==> r is Err ==> partly_entries(
            old(v).rewriting(),
            old(v).stops(),
            *old(list),
            *final(list),
            r->Err_0,
        ),
    decreases *old(list),
{
    let ghost before = *list;
    let ghost how = v.rewriting();
    let ghost stops = v.stops();
    let n = list.len();
    for i in 0..n
        invariant
            n == list.len(),
            n == before.len(),
            before == *old(list),
            V::obeys() ==> how == v.rewriting(),
            how == old(v).rewriting(),
            V::obeys() ==> stops == v.stops(),
            stops == old(v).stops(),
            V::obeys() ==> forall|j: int| 0 <= j < i ==> rewritten_entry(how, (#[trigger] before[j]), list[j]),
            V::obeys() ==> forall|j: int| 0 <= j < i ==> accepted_entry(how, (#[trigger] before[j])),
            forall|j: int| i <= j < n ==> list[j] == #[trigger] before[j],
    {
        let ghost middle = *list;
        assert(list[i as int] == before[i as int]);
        match visit_entry_mut(v, &mut list[i]) {
            Ok(_) => {
                assert forall|j: int| 0 <= j < n && j != i implies list[j] == #[trigger] middle[j] by {}
            },
            Err(error) => {
                assert(V::obeys() ==> !(accepted_entry(how, before[i as int])));
                assert forall|j: int| i < j < n implies #[trigger] before[j] == list[j] by {
                    assert(list[j] == middle[j]);
                }
                assert forall|j: int| 0 <= j < i implies list[j] == #[trigger] middle[j] by {}
                assert(before[i as int] == before[i as int]);
                return Err(error);
            },
        }
    }
    Ok(())
}

fn visit_generic_args_mut<V: ExprVisitorMut>(v: &mut V, list: &mut Vec<GenericArg>) -> (r: Result<(), V::Error>)
    ensures
        V::obeys() ==> final(v).rewriting() == old(v).rewriting(),
        V::obeys() ==> final(v).stops() == old(v).stops(),
        V::obeys() ==> r is Ok == accepted_generic_args(old(v).rewriting(), *old(list)),
        V::obeys() ==> r is Ok ==> rewritten_generic_args(old(v).rewriting(), *old(list), *final(list)),
        V::obeys() ==> r is Err ==> partly_generic_args(
            old(v).rewriting(),
            old(v).stops(),
            *old(list),
            *final(list),
            r->Err_0,
        ),
    decreases *old(list),
{
    let ghost before = *list;
    let ghost how = v.rewriting();
    let ghost stops = v.stops();
    let n = list.len();
    for i in 0..n
        invariant
            n == list.len(),
            n == before.len(),
            before == *old(list),
            V::obeys() ==> how == v.rewriting(),
            how == old(v).rewriting(),
            V::obeys() ==> stops == v.stops(),
            stops == old(v).stops(),
            V::obeys() ==> forall|j: int| 0 <= j < i ==> rewritten_generic_arg(how, (#[trigger] before[j]), list[j]),
            V::obeys() ==> forall|j: int| 0 <= j < i ==> accepted_generic_arg(how, (#[trigger] before[j])),
            forall|j: int| i <= j < n ==> list[j] == #[trigger] before[j],
    {
        let ghost middle = *list;
        assert(list[i as int] == before[i as int]);
        match visit_generic_arg_mut(v, &mut list[i]) {
            Ok(_) => {
                assert forall|j: int| 0 <= j < n && j != i implies list[j] == #[trigger] middle[j] by {}
            },
            Err(error) => {
                assert(V::obeys() ==> !(accepted_generic_arg(how, before[i as int])));
                assert forall|j: int| i < j < n implies #[trigger] before[j] == list[j] by {
                    assert(list[j] == middle[j]);
                }
                assert forall|j: int| 0 <= j < i implies list[j] == #[trigger] middle[j] by {}
                assert(before[i as int] == before[i as int]);
                return Err(error);
            },
        }
    }
    Ok(())
}

fn visit_types_mut<V: ExprVisitorMut>(v: &mut V, list: &mut Vec<TypeExpr>) -> (r: Result<(), V::Error>)
    ensures
        V::obeys() ==> final(v).rewriting() == old(v).rewriting(),
        V::obeys() ==> final(v).stops() == old(v).stops(),
        V::obeys() ==> r is Ok == accepted_types(old(v).rewriting(), *old(list)),
        V::obeys() ==> r is Ok ==> rewritten_types(old(v).rewriting(), *old(list), *final(list)),
        V::obeys() ==> r is Err ==> partly_types(
            old(v).rewriting(),
            old(v).stops(),
            *old(list),
            *final(list),
            r->Err_0,
        ),
    decreases *old(list),
{
    let ghost before = *list;
    let ghost how = v.rewriting();
    let ghost stops = v.stops();
    let n = list.len();
    for i in 0..n
        invariant
            n == list.len(),
            n == before.len(),
            before == *old(list),
            V::obeys() ==> how == v.rewriting(),
            how == old(v).rewriting(),
            V::obeys() ==> stops == v.stops(),
            stops == old(v).stops(),
            V::obeys() ==> forall|j: int| 0 <= j < i ==> rewritten_type(how, (#[trigger] before[j]), list[j]),
            V::obeys() ==> forall|j: int| 0 <= j < i ==> accepted_type(how, (#[trigger] before[j])),
            forall|j: int| i <= j < n ==> list[j] == #[trigger] before[j],
    {
        let ghost middle = *list;
        assert(list[i as int] == before[i as int]);
        match visit_type_expr_mut(v, &mut list[i]) {
            Ok(_) => {
                assert forall|j: int| 0 <= j < n && j != i implies list[j] == #[trigger] middle[j] by {}
            },
            Err(error) => {
                assert(V::obeys() ==> !(accepted_type(how, before[i as int])));
                assert forall|j: int| i < j < n implies #[trigger] before[j] == list[j] by {
                    assert(list[j] == middle[j]);
                }
                assert forall|j: int| 0 <= j < i implies list[j] == #[trigger] middle[j] by {}
                assert(before[i as int] == before[i as int]);
                return Err(error);
            },
        }
    }
    Ok(())
}

} // verus!
