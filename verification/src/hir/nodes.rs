//! Building resolved expressions.

use crate::hir::tree::{
    CivilDateTimeLiteral, DagId, Expr, ExprKind, FieldInit, ForBinding, ForBindingIndex, FunctionRef, GenericArg,
    IanaTimeZoneId, IndexArg, LocalDef, LocalId, MapEntry, MatchArm, OffsetDateTimeLiteral, ParamBinding,
    ResolvedConstructorName, ResolvedDeclName, ResolvedUnitExpr, UnfoldRecurrence, ZonedDateTimeLiteral,
};
use crate::syntax::ast::{BinOp, FloatBits, KeyFormKind, UnaryOp};
use crate::syntax::names::FieldName;
use crate::syntax::non_empty::NonEmpty;
use crate::syntax::span::{Span, Spanned};
use crate::syntax::term::{node1, node2, node3, node4, node5, prepend, Spans, Syntax, Tag, Term};
use vstd::prelude::*;

verus! {

impl ExprKind {
    pub(crate) fn failed(children: Vec<Expr>) -> (r: ExprKind)
        ensures
            r.to_term() == node1(Tag::HirExprError, Term::List(Expr::terms(children))),
            r.has_error(),
    {
        reveal(ExprKind::to_term);
        reveal(ExprKind::has_error);
        ExprKind::Error { children }
    }

    pub(crate) fn number(value: FloatBits) -> (r: ExprKind)
        ensures
            r.to_term() == node1(Tag::HirExprNumber, value.term(Spans::Kept)),
            !r.has_error(),
    {
        reveal(ExprKind::to_term);
        reveal(ExprKind::has_error);
        ExprKind::Number(value)
    }

    pub(crate) fn integer(value: i64) -> (r: ExprKind)
        ensures
            r.to_term() == node1(Tag::HirExprInteger, Term::Int(value as int)),
            !r.has_error(),
    {
        reveal(ExprKind::to_term);
        reveal(ExprKind::has_error);
        ExprKind::Integer(value)
    }

    pub(crate) fn boolean(value: bool) -> (r: ExprKind)
        ensures
            r.to_term() == node1(Tag::HirExprBool, Term::Flag(value)),
            !r.has_error(),
    {
        reveal(ExprKind::to_term);
        reveal(ExprKind::has_error);
        ExprKind::Bool(value)
    }

    pub(crate) fn text(value: String) -> (r: ExprKind)
        ensures
            r.to_term() == node1(Tag::HirExprStringLiteral, Term::Text(value@)),
            !r.has_error(),
    {
        reveal(ExprKind::to_term);
        reveal(ExprKind::has_error);
        ExprKind::StringLiteral(value)
    }

    pub(crate) fn offset_datetime(value: OffsetDateTimeLiteral) -> (r: ExprKind)
        ensures
            r.to_term() == node1(Tag::HirExprOffsetDateTimeLiteral, value.term(Spans::Kept)),
            !r.has_error(),
    {
        reveal(ExprKind::to_term);
        reveal(ExprKind::has_error);
        ExprKind::OffsetDateTimeLiteral(value)
    }

    pub(crate) fn civil_datetime(value: CivilDateTimeLiteral) -> (r: ExprKind)
        ensures
            r.to_term() == node1(Tag::HirExprCivilDateTimeLiteral, value.term(Spans::Kept)),
            !r.has_error(),
    {
        reveal(ExprKind::to_term);
        reveal(ExprKind::has_error);
        ExprKind::CivilDateTimeLiteral(value)
    }

    pub(crate) fn zoned_datetime(value: ZonedDateTimeLiteral) -> (r: ExprKind)
        ensures
            r.to_term() == node1(Tag::HirExprZonedDateTimeLiteral, value.term(Spans::Kept)),
            !r.has_error(),
    {
        reveal(ExprKind::to_term);
        reveal(ExprKind::has_error);
        ExprKind::ZonedDateTimeLiteral(value)
    }

    pub(crate) fn time_zone(value: IanaTimeZoneId) -> (r: ExprKind)
        ensures
            r.to_term() == node1(Tag::HirExprIanaTimeZoneLiteral, value.term(Spans::Kept)),
            !r.has_error(),
    {
        reveal(ExprKind::to_term);
        reveal(ExprKind::has_error);
        ExprKind::IanaTimeZoneLiteral(value)
    }

    pub(crate) fn graph_ref(value: Spanned<ResolvedDeclName>) -> (r: ExprKind)
        ensures
            r.to_term() == node1(Tag::HirExprGraphRef, value.term(Spans::Kept)),
            !r.has_error(),
    {
        reveal(ExprKind::to_term);
        reveal(ExprKind::has_error);
        ExprKind::GraphRef(value)
    }

    pub(crate) fn local_ref(value: Spanned<LocalId>) -> (r: ExprKind)
        ensures
            r.to_term() == node1(Tag::HirExprLocalRef, value.term(Spans::Kept)),
            !r.has_error(),
    {
        reveal(ExprKind::to_term);
        reveal(ExprKind::has_error);
        ExprKind::LocalRef(value)
    }

    pub(crate) fn quantity(value: FloatBits, unit: ResolvedUnitExpr) -> (r: ExprKind)
        ensures
            r.to_term() == node2(Tag::HirExprQuantityLiteral, value.term(Spans::Kept), unit.term(Spans::Kept)),
            !r.has_error(),
    {
        reveal(ExprKind::to_term);
        reveal(ExprKind::has_error);
        ExprKind::QuantityLiteral { value, unit }
    }

    pub(crate) fn binary(op: BinOp, lhs: Expr, rhs: Expr) -> (r: ExprKind)
        ensures
            r.to_term() == node3(Tag::HirExprBinOp, op.term(Spans::Kept), lhs.to_term(), rhs.to_term()),
            r.has_error() == (lhs.has_error() || rhs.has_error()),
    {
        reveal(ExprKind::to_term);
        reveal(ExprKind::has_error);
        ExprKind::BinOp { op, lhs: Box::new(lhs), rhs: Box::new(rhs) }
    }

    pub(crate) fn unary(op: UnaryOp, operand: Expr) -> (r: ExprKind)
        ensures
            r.to_term() == node2(Tag::HirExprUnaryOp, op.term(Spans::Kept), operand.to_term()),
            r.has_error() == (operand.has_error()),
    {
        reveal(ExprKind::to_term);
        reveal(ExprKind::has_error);
        ExprKind::UnaryOp { op, operand: Box::new(operand) }
    }

    pub(crate) fn call(callee: Spanned<FunctionRef>, args: Vec<Expr>) -> (r: ExprKind)
        ensures
            r.to_term() == node2(Tag::HirExprFnCall, callee.term(Spans::Kept), Term::List(Expr::terms(args))),
            r.has_error() == (Expr::any_error(args)),
    {
        reveal(ExprKind::to_term);
        reveal(ExprKind::has_error);
        ExprKind::FnCall { callee, args }
    }

    pub(crate) fn conditional(condition: Expr, then_branch: Expr, else_branch: Expr) -> (r: ExprKind)
        ensures
            r.to_term() == node3(Tag::HirExprIf, condition.to_term(), then_branch.to_term(), else_branch.to_term()),
            r.has_error() == (condition.has_error() || then_branch.has_error() || else_branch.has_error()),
    {
        reveal(ExprKind::to_term);
        reveal(ExprKind::has_error);
        ExprKind::If {
            condition: Box::new(condition),
            then_branch: Box::new(then_branch),
            else_branch: Box::new(else_branch),
        }
    }

    pub(crate) fn converted(expr: Expr, target: ResolvedUnitExpr) -> (r: ExprKind)
        ensures
            r.to_term() == node2(Tag::HirExprConvert, expr.to_term(), target.term(Spans::Kept)),
            r.has_error() == (expr.has_error()),
    {
        reveal(ExprKind::to_term);
        reveal(ExprKind::has_error);
        ExprKind::Convert { expr: Box::new(expr), target }
    }

    pub(crate) fn in_time_zone(expr: Expr, timezone: IanaTimeZoneId) -> (r: ExprKind)
        ensures
            r.to_term() == node2(Tag::HirExprDisplayTimezone, expr.to_term(), timezone.term(Spans::Kept)),
            r.has_error() == (expr.has_error()),
    {
        reveal(ExprKind::to_term);
        reveal(ExprKind::has_error);
        ExprKind::DisplayTimezone { expr: Box::new(expr), timezone }
    }

    pub(crate) fn field_access(expr: Expr, field: Spanned<FieldName>) -> (r: ExprKind)
        ensures
            r.to_term() == node2(Tag::HirExprFieldAccess, expr.to_term(), field.term(Spans::Kept)),
            r.has_error() == (expr.has_error()),
    {
        reveal(ExprKind::to_term);
        reveal(ExprKind::has_error);
        ExprKind::FieldAccess { expr: Box::new(expr), field }
    }

    pub(crate) fn constructed(
        callee: Spanned<ResolvedConstructorName>,
        generic_args: Vec<GenericArg>,
        fields: Vec<FieldInit>,
    ) -> (r: ExprKind)
        ensures
            r.to_term() == node3(
                Tag::HirExprConstructorCall,
                callee.term(Spans::Kept),
                generic_args.term(Spans::Kept),
                Term::List(FieldInit::terms(fields)),
            ),
            r.has_error() == (FieldInit::any_error(fields)),
    {
        reveal(ExprKind::to_term);
        reveal(ExprKind::has_error);
        ExprKind::ConstructorCall { callee, generic_args, fields }
    }

    pub(crate) fn map(entries: Vec<MapEntry>) -> (r: ExprKind)
        ensures
            r.to_term() == node1(Tag::HirExprMapLiteral, Term::List(MapEntry::terms(entries))),
            r.has_error() == (MapEntry::any_error(entries)),
    {
        reveal(ExprKind::to_term);
        reveal(ExprKind::has_error);
        ExprKind::MapLiteral { entries }
    }

    pub(crate) fn comprehension(bindings: Vec<ForBinding>, body: Expr) -> (r: ExprKind)
        ensures
            r.to_term() == node2(Tag::HirExprForComp, bindings.term(Spans::Kept), body.to_term()),
            r.has_error() == (body.has_error()),
    {
        reveal(ExprKind::to_term);
        reveal(ExprKind::has_error);
        ExprKind::ForComp { bindings, body: Box::new(body) }
    }

    pub(crate) fn indexed(expr: Expr, args: NonEmpty<IndexArg>) -> (r: ExprKind)
        ensures
            r.to_term() == node2(
                Tag::HirExprIndexAccess,
                expr.to_term(),
                Term::List(prepend(args.first.to_term(), IndexArg::terms(args.rest))),
            ),
            r.has_error() == (expr.has_error() || args.first.has_error() || IndexArg::any_error(args.rest)),
    {
        reveal(ExprKind::to_term);
        reveal(ExprKind::has_error);
        ExprKind::IndexAccess { expr: Box::new(expr), args }
    }

    pub(crate) fn scan(source: Expr, init: Expr, acc: LocalDef, val: LocalDef, body: Expr) -> (r: ExprKind)
        ensures
            r.to_term() == node5(
                Tag::HirExprScan,
                source.to_term(),
                init.to_term(),
                acc.term(Spans::Kept),
                val.term(Spans::Kept),
                body.to_term(),
            ),
            r.has_error() == (source.has_error() || init.has_error() || body.has_error()),
    {
        reveal(ExprKind::to_term);
        reveal(ExprKind::has_error);
        ExprKind::Scan { source: Box::new(source), init: Box::new(init), acc, val, body: Box::new(body) }
    }

    pub(crate) fn unfold(recurrence: UnfoldRecurrence, init: Expr, body: Expr) -> (r: ExprKind)
        ensures
            r.to_term() == node3(Tag::HirExprUnfold, recurrence.term(Spans::Kept), init.to_term(), body.to_term()),
            r.has_error() == (init.has_error() || body.has_error()),
    {
        reveal(ExprKind::to_term);
        reveal(ExprKind::has_error);
        ExprKind::Unfold { recurrence, init: Box::new(init), body: Box::new(body) }
    }

    pub(crate) fn key_form(kind: KeyFormKind, axis: ForBindingIndex, axis_span: Span, arg: Expr) -> (r: ExprKind)
        ensures
            r.to_term() == node4(
                Tag::HirExprKeyForm,
                kind.term(Spans::Kept),
                axis.term(Spans::Kept),
                Term::At(axis_span),
                arg.to_term(),
            ),
            r.has_error() == (arg.has_error()),
    {
        reveal(ExprKind::to_term);
        reveal(ExprKind::has_error);
        ExprKind::KeyForm { kind, axis, axis_span, arg: Box::new(arg) }
    }

    pub(crate) fn matched(scrutinee: Expr, arms: Vec<MatchArm>) -> (r: ExprKind)
        ensures
            r.to_term() == node2(Tag::HirExprMatch, scrutinee.to_term(), Term::List(MatchArm::terms(arms))),
            r.has_error() == (scrutinee.has_error() || MatchArm::any_error(arms)),
    {
        reveal(ExprKind::to_term);
        reveal(ExprKind::has_error);
        ExprKind::Match { scrutinee: Box::new(scrutinee), arms }
    }

    pub(crate) fn dag_call(
        target: Spanned<DagId>,
        args: Vec<ParamBinding>,
        output: Spanned<ResolvedDeclName>,
    ) -> (r: ExprKind)
        ensures
            r.to_term() == node3(
                Tag::HirExprDagCall,
                target.term(Spans::Kept),
                Term::List(ParamBinding::terms(args)),
                output.term(Spans::Kept),
            ),
            r.has_error() == (ParamBinding::any_error(args)),
    {
        reveal(ExprKind::to_term);
        reveal(ExprKind::has_error);
        ExprKind::DagCall { target, args, output }
    }
}

} // verus!
