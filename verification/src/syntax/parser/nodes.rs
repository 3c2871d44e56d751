//! Expressions of each kind, with the terms they have.

use crate::syntax::ast::{
    BinOp, Expr, ExprKind, FieldInit, FloatBits, ForBinding, GenericArg, IdentPath, IndexArg, IndexExpr, KeyFormKind,
    MapEntry, MatchArm, ModulePath, NamePath, ParamBinding, RawExprSugar, ScopedName, TableIndexSpec, UnaryOp,
    UnitExpr, UnresolvedRef,
};
use crate::syntax::names::{DeclName, FieldName, LocalName};
use crate::syntax::non_empty::NonEmpty;
use crate::syntax::parser::grammar::{expr as expr_term, kind_of, span_of};
use crate::syntax::span::{Span, Spanned};
use crate::syntax::term::{
    node1, node2, node3, node5, node6, prepend, seq_terms, Reading, Spans, Symbol, Syntax, Tag, Term,
};
use vstd::prelude::*;

verus! {

/// The term of an expression is that of its kind with its span behind it.
pub(crate) proof fn lemma_expr(e: Expr)
    ensures
        e.to_term(Reading::Exact) == expr_term(e.kind.to_term(Reading::Exact), e.span),
        span_of(e.to_term(Reading::Exact)) == e.span,
        kind_of(e.to_term(Reading::Exact)) == e.kind.to_term(Reading::Exact),
        e.term(Spans::Kept) == e.to_term(Reading::Exact),
{
    reveal(ExprKind::to_term);
}

impl Expr {
    pub fn new(kind: ExprKind, span: Span) -> (r: Expr)
        ensures
            r.kind == kind,
            r.span == span,
            r.to_term(Reading::Exact) == expr_term(kind.to_term(Reading::Exact), span),
    {
        proof {
            reveal(ExprKind::to_term);
        }
        Expr { kind, span }
    }
}

pub(crate) fn number(value: FloatBits, span: Span) -> (r: Expr)
    ensures
        r.span == span,
        r.to_term(Reading::Exact) == expr_term(
            node1(Tag::ExprNumber, Term::Int(value.bits as int)),
            span,
        ),
{
    let kind = ExprKind::Number(value);
    assert(kind.to_term(Reading::Exact) == node1(Tag::ExprNumber, Term::Int(value.bits as int))) by {
        reveal(ExprKind::to_term);
    }
    Expr::new(kind, span)
}

pub(crate) fn integer(value: i64, span: Span) -> (r: Expr)
    ensures
        r.span == span,
        r.to_term(Reading::Exact) == expr_term(
            node1(Tag::ExprInteger, Term::Int(value as int)),
            span,
        ),
{
    let kind = ExprKind::Integer(value);
    assert(kind.to_term(Reading::Exact) == node1(Tag::ExprInteger, Term::Int(value as int))) by {
        reveal(ExprKind::to_term);
    }
    Expr::new(kind, span)
}

pub(crate) fn boolean(value: bool, span: Span) -> (r: Expr)
    ensures
        r.span == span,
        r.to_term(Reading::Exact) == expr_term(
            node1(Tag::ExprBool, Term::Flag(value)),
            span,
        ),
{
    let kind = ExprKind::Bool(value);
    assert(kind.to_term(Reading::Exact) == node1(Tag::ExprBool, Term::Flag(value))) by {
        reveal(ExprKind::to_term);
    }
    Expr::new(kind, span)
}

pub(crate) fn string_literal(value: String, span: Span) -> (r: Expr)
    ensures
        r.span == span,
        r.to_term(Reading::Exact) == expr_term(
            node1(Tag::ExprStringLiteral, Term::Text(value@)),
            span,
        ),
{
    let kind = ExprKind::StringLiteral(value);
    assert(kind.to_term(Reading::Exact) == node1(Tag::ExprStringLiteral, Term::Text(value@))) by {
        reveal(ExprKind::to_term);
    }
    Expr::new(kind, span)
}

pub(crate) fn graph_ref(name: Spanned<ScopedName>, span: Span) -> (r: Expr)
    ensures
        r.span == span,
        r.to_term(Reading::Exact) == expr_term(
            node1(Tag::ExprGraphRef, name.term(Spans::Kept)),
            span,
        ),
{
    let kind = ExprKind::GraphRef(name);
    assert(kind.to_term(Reading::Exact) == node1(Tag::ExprGraphRef, name.term(Spans::Kept))) by {
        reveal(ExprKind::to_term);
    }
    Expr::new(kind, span)
}

pub(crate) fn quantity(value: FloatBits, unit: UnitExpr, span: Span) -> (r: Expr)
    ensures
        r.span == span,
        r.to_term(Reading::Exact) == expr_term(
            node2(Tag::ExprQuantityLiteral, Term::Int(value.bits as int), unit.term(Spans::Kept)),
            span,
        ),
{
    let kind = ExprKind::QuantityLiteral { value, unit };
    assert(
        kind.to_term(Reading::Exact) == node2(
            Tag::ExprQuantityLiteral,
            Term::Int(value.bits as int),
            unit.term(Spans::Kept),
        )
    ) by {
        reveal(ExprKind::to_term);
    }
    Expr::new(kind, span)
}

pub(crate) fn binary_op(op: BinOp, lhs: Expr, rhs: Expr, span: Span) -> (r: Expr)
    ensures
        r.span == span,
        r.to_term(Reading::Exact) == expr_term(
            node3(
                Tag::ExprBinOp,
                Term::Symbol(Symbol::BinOp(op)),
                lhs.to_term(Reading::Exact),
                rhs.to_term(Reading::Exact),
            ),
            span,
        ),
{
    let kind = ExprKind::BinOp { op, lhs: Box::new(lhs), rhs: Box::new(rhs) };
    assert(
        kind.to_term(Reading::Exact) == node3(
            Tag::ExprBinOp,
            Term::Symbol(Symbol::BinOp(op)),
            lhs.to_term(Reading::Exact),
            rhs.to_term(Reading::Exact),
        )
    ) by {
        reveal(ExprKind::to_term);
    }
    Expr::new(kind, span)
}

pub(crate) fn unary_op(op: UnaryOp, operand: Expr, span: Span) -> (r: Expr)
    ensures
        r.span == span,
        r.to_term(Reading::Exact) == expr_term(
            node2(Tag::ExprUnaryOp, Term::Symbol(Symbol::UnaryOp(op)), operand.to_term(Reading::Exact)),
            span,
        ),
{
    let kind = ExprKind::UnaryOp { op, operand: Box::new(operand) };
    assert(
        kind.to_term(Reading::Exact) == node2(
            Tag::ExprUnaryOp,
            Term::Symbol(Symbol::UnaryOp(op)),
            operand.to_term(Reading::Exact),
        )
    ) by {
        reveal(ExprKind::to_term);
    }
    Expr::new(kind, span)
}

pub(crate) fn fn_call(callee: IdentPath, generic_args: Vec<GenericArg>, args: Vec<Expr>, span: Span) -> (r: Expr)
    ensures
        r.span == span,
        r.to_term(Reading::Exact) == expr_term(
            node3(
                Tag::ExprFnCall,
                callee.term(Spans::Kept),
                Term::List(GenericArg::terms(generic_args, Reading::Exact)),
                Term::List(Expr::terms(args, Reading::Exact)),
            ),
            span,
        ),
{
    let kind = ExprKind::FnCall { callee, generic_args, args };
    assert(
        kind.to_term(Reading::Exact) == node3(
            Tag::ExprFnCall,
            callee.term(Spans::Kept),
            Term::List(GenericArg::terms(generic_args, Reading::Exact)),
            Term::List(Expr::terms(args, Reading::Exact)),
        )
    ) by {
        reveal(ExprKind::to_term);
    }
    Expr::new(kind, span)
}

pub(crate) fn constructor_call(
    callee: IdentPath,
    generic_args: Vec<GenericArg>,
    fields: Vec<FieldInit>,
    span: Span,
) -> (r: Expr)
    ensures
        r.span == span,
        r.to_term(Reading::Exact) == expr_term(
            node3(
                Tag::ExprConstructorCall,
                callee.term(Spans::Kept),
                Term::List(GenericArg::terms(generic_args, Reading::Exact)),
                Term::List(FieldInit::terms(fields, Reading::Exact)),
            ),
            span,
        ),
{
    let kind = ExprKind::ConstructorCall { callee, generic_args, fields };
    assert(
        kind.to_term(Reading::Exact) == node3(
            Tag::ExprConstructorCall,
            callee.term(Spans::Kept),
            Term::List(GenericArg::terms(generic_args, Reading::Exact)),
            Term::List(FieldInit::terms(fields, Reading::Exact)),
        )
    ) by {
        reveal(ExprKind::to_term);
    }
    Expr::new(kind, span)
}

pub(crate) fn conditional(condition: Expr, then_branch: Expr, else_branch: Expr, span: Span) -> (r: Expr)
    ensures
        r.span == span,
        r.to_term(Reading::Exact) == expr_term(
            node3(
                Tag::ExprIf,
                condition.to_term(Reading::Exact),
                then_branch.to_term(Reading::Exact),
                else_branch.to_term(Reading::Exact),
            ),
            span,
        ),
{
    let kind = ExprKind::If {
        condition: Box::new(condition),
        then_branch: Box::new(then_branch),
        else_branch: Box::new(else_branch),
    };
    assert(
        kind.to_term(Reading::Exact) == node3(
            Tag::ExprIf,
            condition.to_term(Reading::Exact),
            then_branch.to_term(Reading::Exact),
            else_branch.to_term(Reading::Exact),
        )
    ) by {
        reveal(ExprKind::to_term);
    }
    Expr::new(kind, span)
}

pub(crate) fn convert(expr: Expr, target: UnitExpr, span: Span) -> (r: Expr)
    ensures
        r.span == span,
        r.to_term(Reading::Exact) == expr_term(
            node2(Tag::ExprConvert, expr.to_term(Reading::Exact), target.term(Spans::Kept)),
            span,
        ),
{
    let kind = ExprKind::Convert { expr: Box::new(expr), target };
    assert(
        kind.to_term(Reading::Exact) == node2(
            Tag::ExprConvert,
            expr.to_term(Reading::Exact),
            target.term(Spans::Kept),
        )
    ) by {
        reveal(ExprKind::to_term);
    }
    Expr::new(kind, span)
}

pub(crate) fn display_timezone(expr: Expr, timezone: String, span: Span) -> (r: Expr)
    ensures
        r.span == span,
        r.to_term(Reading::Exact) == expr_term(
            node2(Tag::ExprDisplayTimezone, expr.to_term(Reading::Exact), Term::Text(timezone@)),
            span,
        ),
{
    let kind = ExprKind::DisplayTimezone { expr: Box::new(expr), timezone };
    assert(
        kind.to_term(Reading::Exact) == node2(
            Tag::ExprDisplayTimezone,
            expr.to_term(Reading::Exact),
            Term::Text(timezone@),
        )
    ) by {
        reveal(ExprKind::to_term);
    }
    Expr::new(kind, span)
}

pub(crate) fn field_access(expr: Expr, field: Spanned<FieldName>, span: Span) -> (r: Expr)
    ensures
        r.span == span,
        r.to_term(Reading::Exact) == expr_term(
            node2(Tag::ExprFieldAccess, expr.to_term(Reading::Exact), field.term(Spans::Kept)),
            span,
        ),
{
    let kind = ExprKind::FieldAccess { expr: Box::new(expr), field };
    assert(
        kind.to_term(Reading::Exact) == node2(
            Tag::ExprFieldAccess,
            expr.to_term(Reading::Exact),
            field.term(Spans::Kept),
        )
    ) by {
        reveal(ExprKind::to_term);
    }
    Expr::new(kind, span)
}

pub(crate) fn map_literal(entries: Vec<MapEntry>, span: Span) -> (r: Expr)
    ensures
        r.span == span,
        r.to_term(Reading::Exact) == expr_term(
            node1(Tag::ExprMapLiteral, Term::List(MapEntry::terms(entries, Reading::Exact))),
            span,
        ),
{
    let kind = ExprKind::MapLiteral { entries };
    assert(
        kind.to_term(Reading::Exact) == node1(
            Tag::ExprMapLiteral,
            Term::List(MapEntry::terms(entries, Reading::Exact)),
        )
    ) by {
        reveal(ExprKind::to_term);
    }
    Expr::new(kind, span)
}

pub(crate) fn table_literal(indexes: Vec<TableIndexSpec>, entries: Vec<MapEntry>, span: Span) -> (r: Expr)
    ensures
        r.span == span,
        r.to_term(Reading::Exact) == expr_term(
            node2(
                Tag::TableLiteral,
                Term::List(seq_terms(indexes@, Spans::Kept)),
                Term::List(MapEntry::terms(entries, Reading::Exact)),
            ),
            span,
        ),
{
    let sugar = RawExprSugar::TableLiteral { indexes, entries };
    assert(sugar.to_term(Reading::Exact) == node2(
        Tag::TableLiteral,
        indexes.term(Spans::Kept),
        Term::List(MapEntry::terms(entries, Reading::Exact)),
    ));
    let kind = ExprKind::Sugar(sugar);
    assert(
        kind.to_term(Reading::Exact) == node2(
            Tag::TableLiteral,
            Term::List(seq_terms(indexes@, Spans::Kept)),
            Term::List(MapEntry::terms(entries, Reading::Exact)),
        )
    ) by {
        reveal(ExprKind::to_term);
    }
    Expr::new(kind, span)
}

pub(crate) fn for_comp(bindings: Vec<ForBinding>, body: Expr, span: Span) -> (r: Expr)
    ensures
        r.span == span,
        r.to_term(Reading::Exact) == expr_term(
            node2(Tag::ExprForComp, Term::List(seq_terms(bindings@, Spans::Kept)), body.to_term(Reading::Exact)),
            span,
        ),
{
    let kind = ExprKind::ForComp { bindings, body: Box::new(body) };
    assert(
        kind.to_term(Reading::Exact) == node2(
            Tag::ExprForComp,
            Term::List(seq_terms(bindings@, Spans::Kept)),
            body.to_term(Reading::Exact),
        )
    ) by {
        reveal(ExprKind::to_term);
    }
    Expr::new(kind, span)
}

pub(crate) fn index_access(expr: Expr, args: NonEmpty<IndexArg>, span: Span) -> (r: Expr)
    ensures
        r.span == span,
        r.to_term(Reading::Exact) == expr_term(
            node2(
                Tag::ExprIndexAccess,
                expr.to_term(Reading::Exact),
                Term::List(prepend(args.first.to_term(Reading::Exact), IndexArg::terms(args.rest, Reading::Exact))),
            ),
            span,
        ),
{
    let kind = ExprKind::IndexAccess { expr: Box::new(expr), args };
    assert(
        kind.to_term(Reading::Exact) == node2(
            Tag::ExprIndexAccess,
            expr.to_term(Reading::Exact),
            Term::List(prepend(args.first.to_term(Reading::Exact), IndexArg::terms(args.rest, Reading::Exact))),
        )
    ) by {
        reveal(ExprKind::to_term);
    }
    Expr::new(kind, span)
}

pub(crate) fn scan(
    source: Expr,
    init: Expr,
    acc_name: Spanned<LocalName>,
    val_name: Spanned<LocalName>,
    body: Expr,
    span: Span,
) -> (r: Expr)
    ensures
        r.span == span,
        r.to_term(Reading::Exact) == expr_term(
            node5(
                Tag::ExprScan,
                source.to_term(Reading::Exact),
                init.to_term(Reading::Exact),
                acc_name.term(Spans::Kept),
                val_name.term(Spans::Kept),
                body.to_term(Reading::Exact),
            ),
            span,
        ),
{
    let kind = ExprKind::Scan {
        source: Box::new(source),
        init: Box::new(init),
        acc_name,
        val_name,
        body: Box::new(body),
    };
    assert(
        kind.to_term(Reading::Exact) == node5(
            Tag::ExprScan,
            source.to_term(Reading::Exact),
            init.to_term(Reading::Exact),
            acc_name.term(Spans::Kept),
            val_name.term(Spans::Kept),
            body.to_term(Reading::Exact),
        )
    ) by {
        reveal(ExprKind::to_term);
    }
    Expr::new(kind, span)
}

pub(crate) fn unfold(
    axis: Spanned<NamePath>,
    init: Expr,
    prev_state_name: Spanned<LocalName>,
    prev_index_name: Spanned<LocalName>,
    index_name: Spanned<LocalName>,
    body: Expr,
    span: Span,
) -> (r: Expr)
    ensures
        r.span == span,
        r.to_term(Reading::Exact) == expr_term(
            node6(
                Tag::ExprUnfold,
                axis.term(Spans::Kept),
                init.to_term(Reading::Exact),
                prev_state_name.term(Spans::Kept),
                prev_index_name.term(Spans::Kept),
                index_name.term(Spans::Kept),
                body.to_term(Reading::Exact),
            ),
            span,
        ),
{
    let kind = ExprKind::Unfold {
        axis,
        init: Box::new(init),
        prev_state_name,
        prev_index_name,
        index_name,
        body: Box::new(body),
    };
    assert(
        kind.to_term(Reading::Exact) == node6(
            Tag::ExprUnfold,
            axis.term(Spans::Kept),
            init.to_term(Reading::Exact),
            prev_state_name.term(Spans::Kept),
            prev_index_name.term(Spans::Kept),
            index_name.term(Spans::Kept),
            body.to_term(Reading::Exact),
        )
    ) by {
        reveal(ExprKind::to_term);
    }
    Expr::new(kind, span)
}

pub(crate) fn key_form(kind: KeyFormKind, axis: IndexExpr, arg: Expr, span: Span) -> (r: Expr)
    ensures
        r.span == span,
        r.to_term(Reading::Exact) == expr_term(
            node3(
                Tag::ExprKeyForm,
                Term::Symbol(Symbol::KeyFormKind(kind)),
                axis.term(Spans::Kept),
                arg.to_term(Reading::Exact),
            ),
            span,
        ),
{
    let node = ExprKind::KeyForm { kind, axis, arg: Box::new(arg) };
    assert(
        node.to_term(Reading::Exact) == node3(
            Tag::ExprKeyForm,
            Term::Symbol(Symbol::KeyFormKind(kind)),
            axis.term(Spans::Kept),
            arg.to_term(Reading::Exact),
        )
    ) by {
        reveal(ExprKind::to_term);
    }
    Expr::new(node, span)
}

pub(crate) fn match_on(scrutinee: Expr, arms: Vec<MatchArm>, span: Span) -> (r: Expr)
    ensures
        r.span == span,
        r.to_term(Reading::Exact) == expr_term(
            node2(
                Tag::ExprMatch,
                scrutinee.to_term(Reading::Exact),
                Term::List(MatchArm::terms(arms, Reading::Exact)),
            ),
            span,
        ),
{
    let kind = ExprKind::Match { scrutinee: Box::new(scrutinee), arms };
    assert(
        kind.to_term(Reading::Exact) == node2(
            Tag::ExprMatch,
            scrutinee.to_term(Reading::Exact),
            Term::List(MatchArm::terms(arms, Reading::Exact)),
        )
    ) by {
        reveal(ExprKind::to_term);
    }
    Expr::new(kind, span)
}

pub(crate) fn inline_dag_ref(
    path: ModulePath,
    args: Vec<ParamBinding>,
    output: Spanned<DeclName>,
    span: Span,
) -> (r: Expr)
    ensures
        r.span == span,
        r.to_term(Reading::Exact) == expr_term(
            node3(
                Tag::ExprInlineDagRef,
                path.term(Spans::Kept),
                Term::List(ParamBinding::terms(args, Reading::Exact)),
                output.term(Spans::Kept),
            ),
            span,
        ),
{
    let kind = ExprKind::InlineDagRef { path, args, output };
    assert(
        kind.to_term(Reading::Exact) == node3(
            Tag::ExprInlineDagRef,
            path.term(Spans::Kept),
            Term::List(ParamBinding::terms(args, Reading::Exact)),
            output.term(Spans::Kept),
        )
    ) by {
        reveal(ExprKind::to_term);
    }
    Expr::new(kind, span)
}

pub(crate) fn unresolved_path(path: IdentPath, span: Span) -> (r: Expr)
    ensures
        r.span == span,
        r.to_term(Reading::Exact) == expr_term(
            node1(Tag::ExprUnresolvedRef, path.term(Spans::Kept)),
            span,
        ),
{
    let kind = ExprKind::UnresolvedRef(UnresolvedRef::Path(path));
    assert(kind.to_term(Reading::Exact) == node1(Tag::ExprUnresolvedRef, path.term(Spans::Kept))) by {
        reveal(ExprKind::to_term);
    }
    Expr::new(kind, span)
}

} // verus!
