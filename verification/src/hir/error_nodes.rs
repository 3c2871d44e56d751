//! Each error node of a resolved expression stands for one error.

use crate::desugar::desugared_ast as ast;
use crate::hir::context::Ctx;
use crate::hir::local_numbers::{after_first_part, after_second_part, in_all_parts, in_first_part};
use crate::hir::lowering::{
    alias_field, allocated, constructor_of, constructor_pattern, dag_call, discrete_key, dotted_ref, error_children,
    fold_locals, for_binding, for_bindings, for_index, function_application, function_arg, function_args,
    function_args_upto, function_ref, hir_expr, ident_path_span, index_arg, index_args, index_expr_span, key_axis,
    lowered, lowered_arg_expr, lowered_arg_exprs, lowered_arm, lowered_arm_bodies, lowered_arms,
    lowered_binding_values, lowered_call, lowered_constructor, lowered_entries, lowered_entries_exprs, lowered_entry,
    lowered_entry_exprs, lowered_exprs, lowered_field_values, lowered_fields, lowered_in, lowered_key,
    lowered_key_expr, lowered_key_exprs, lowered_keys, lowered_kind, match_pattern, module_ref, param_binding,
    param_bindings, path_pattern, pattern_binding, pattern_bindings, segment_names, spanned_index, unresolved_ref,
    zone_arg, zoned_args, zoned_datetime_arg, zoned_literal, Fun, Local, Low, St,
};
use crate::hir::resolve::{dotted_path, idents_of, module_resolution};
use crate::syntax::ast::{ForBinding, IdentPath, MatchPattern, ModulePath, PatternBinding, UnresolvedRef};
use crate::syntax::names::{DeclName, LocalName};
use crate::syntax::span::{Span, Spanned};
use crate::syntax::term::{node1, node2, node3, pair, prepend, Spans, Symbol, Syntax, Tag, Term};
use vstd::prelude::*;

verus! {

/// The number of error nodes in a resolved tree.
pub open spec fn error_nodes(t: Term) -> nat
    decreases t,
{
    match t {
        Term::List(items) => list_errors(items),
        Term::Pair(a, b) => error_nodes(*a) + error_nodes(*b),
        Term::Node(tag, parts) => if tag == Tag::HirExprError {
            error_nodes(*parts) + 1
        } else if in_all_parts(tag) {
            error_nodes(*parts)
        } else {
            match *parts {
                Term::Pair(a, b) => if in_first_part(tag) {
                    error_nodes(*a)
                } else if after_first_part(tag) {
                    error_nodes(*b)
                } else {
                    match *b {
                        Term::Pair(second, rest) => if after_second_part(tag) {
                            error_nodes(*rest)
                        } else if tag == Tag::HirExprDagCall {
                            error_nodes(*second)
                        } else {
                            0
                        },
                        _ => 0,
                    }
                },
                _ => 0,
            }
        },
        _ => 0,
    }
}

pub open spec fn list_errors(items: Seq<Term>) -> nat
    decreases items,
{
    if items.len() == 0 {
        0
    } else {
        list_errors(items.drop_last()) + error_nodes(items.last())
    }
}

/// Whether `n` errors came up between two states.
pub open spec fn counted(n: nat, before: St, after: St) -> bool {
    after.errors.len() == before.errors.len() + n
}

/// Whether a part that resolved has as many error nodes as errors came up.
pub open spec fn resolved_counted(before: St, r: Low<Term>) -> bool {
    match r {
        Low::Done(t, after) => counted(error_nodes(t), before, after),
        Low::Failed(_) => true,
    }
}

/// Whether parts that resolved have as many error nodes as errors came up.
pub open spec fn all_counted(before: St, r: Low<Seq<Term>>) -> bool {
    match r {
        Low::Done(items, after) => counted(list_errors(items), before, after),
        Low::Failed(_) => true,
    }
}

proof fn lemma_push(items: Seq<Term>, item: Term)
    ensures
        list_errors(items.push(item)) == list_errors(items) + error_nodes(item),
{
    assert(items.push(item).drop_last() =~= items);
}

proof fn lemma_concat(a: Seq<Term>, b: Seq<Term>)
    ensures
        list_errors(a + b) == list_errors(a) + list_errors(b),
    decreases b.len(),
{
    if b.len() == 0 {
        assert(a + b =~= a);
    } else {
        lemma_concat(a, b.drop_last());
        assert((a + b).drop_last() =~= a + b.drop_last());
    }
}

proof fn lemma_single(item: Term)
    ensures
        list_errors(seq![item]) == error_nodes(item),
{
    lemma_push(Seq::empty(), item);
    assert(Seq::empty().push(item) =~= seq![item]);
}

proof fn lemma_two(a: Term, b: Term)
    ensures
        list_errors(seq![a, b]) == error_nodes(a) + error_nodes(b),
{
    lemma_single(a);
    lemma_push(seq![a], b);
    assert(seq![a].push(b) =~= seq![a, b]);
}

proof fn lemma_three(a: Term, b: Term, c: Term)
    ensures
        list_errors(seq![a, b, c]) == error_nodes(a) + error_nodes(b) + error_nodes(c),
{
    lemma_two(a, b);
    lemma_push(seq![a, b], c);
    assert(seq![a, b].push(c) =~= seq![a, b, c]);
}

proof fn lemma_expr(kind: Term, span: Span)
    ensures
        error_nodes(hir_expr(kind, span)) == error_nodes(kind),
{
    reveal_with_fuel(error_nodes, 3);
}

proof fn lemma_leaf(kind: Term, span: Span)
    requires
        error_nodes(kind) == 0,
    ensures
        error_nodes(hir_expr(kind, span)) == 0,
{
    lemma_expr(kind, span);
}

pub(crate) proof fn lemma_node1(tag: Tag, a: Term)
    requires
        in_all_parts(tag),
    ensures
        error_nodes(node1(tag, a)) == error_nodes(a) + (if tag == Tag::HirExprError { 1nat } else { 0 }),
{
    reveal_with_fuel(error_nodes, 2);
}

proof fn lemma_node2(tag: Tag, a: Term, b: Term)
    requires
        tag != Tag::HirExprError,
    ensures
        in_all_parts(tag) ==> error_nodes(node2(tag, a, b)) == error_nodes(a) + error_nodes(b),
        in_first_part(tag) ==> error_nodes(node2(tag, a, b)) == error_nodes(a),
        after_first_part(tag) ==> error_nodes(node2(tag, a, b)) == error_nodes(b),
{
    reveal_with_fuel(error_nodes, 3);
}

pub(crate) proof fn lemma_node3(tag: Tag, a: Term, b: Term, c: Term)
    requires
        tag != Tag::HirExprError,
    ensures
        in_all_parts(tag) ==> error_nodes(node3(tag, a, b, c)) == error_nodes(a) + (error_nodes(b) + error_nodes(c)),
        after_first_part(tag) ==> error_nodes(node3(tag, a, b, c)) == error_nodes(b) + error_nodes(c),
        after_second_part(tag) ==> error_nodes(node3(tag, a, b, c)) == error_nodes(c),
        tag == Tag::HirExprDagCall ==> error_nodes(node3(tag, a, b, c)) == error_nodes(b),
{
    reveal_with_fuel(error_nodes, 4);
}

proof fn lemma_local(local: Local)
    ensures
        error_nodes(local.to_term()) == 0,
{
}

/// Every part that did not resolve is one error node, and has one error.
pub proof fn law_one_error_per_error_node(c: Ctx, e: ast::Expr, st: St)
    ensures
        counted(error_nodes(lowered(c, e, st).0), st, lowered(c, e, st).1),
    decreases e, 2int,
{
    lemma_kind(c, e, st);
    match lowered_kind(c, e, st) {
        Low::Done(kind, _) => lemma_expr(kind, e.span),
        Low::Failed(error) => {
            let failed = St { errors: st.errors.push(error), ..st };
            let children = error_children(c, e, failed).0;
            lemma_error_children(c, e, failed);
            lemma_expr(node1(Tag::HirExprError, Term::List(children)), e.span);
            lemma_node1(Tag::HirExprError, Term::List(children));
        },
    }
}

proof fn lemma_exprs(c: Ctx, v: Vec<ast::Expr>, n: nat, st: St)
    ensures
        counted(list_errors(lowered_exprs(c, v, n, st).0), st, lowered_exprs(c, v, n, st).1),
    decreases v, n,
{
    if 0 < n <= v.len() {
        let (before, middle) = lowered_exprs(c, v, (n - 1) as nat, st);
        let (item, after) = lowered(c, v[n - 1], middle);
        lemma_exprs(c, v, (n - 1) as nat, st);
        law_one_error_per_error_node(c, v[n - 1], middle);
        lemma_push(before, item);
    }
}

proof fn lemma_field_values(c: Ctx, v: Vec<ast::FieldInit>, n: nat, st: St)
    ensures
        counted(list_errors(lowered_field_values(c, v, n, st).0), st, lowered_field_values(c, v, n, st).1),
    decreases v, n,
{
    if 0 < n <= v.len() {
        let (before, middle) = lowered_field_values(c, v, (n - 1) as nat, st);
        let (item, after) = lowered(c, v[n - 1].value, middle);
        lemma_field_values(c, v, (n - 1) as nat, st);
        law_one_error_per_error_node(c, v[n - 1].value, middle);
        lemma_push(before, item);
    }
}

proof fn lemma_arm_bodies(c: Ctx, v: Vec<ast::MatchArm>, n: nat, st: St)
    ensures
        counted(list_errors(lowered_arm_bodies(c, v, n, st).0), st, lowered_arm_bodies(c, v, n, st).1),
    decreases v, n,
{
    if 0 < n <= v.len() {
        let (before, middle) = lowered_arm_bodies(c, v, (n - 1) as nat, st);
        let (item, after) = lowered(c, v[n - 1].body, middle);
        lemma_arm_bodies(c, v, (n - 1) as nat, st);
        law_one_error_per_error_node(c, v[n - 1].body, middle);
        lemma_push(before, item);
    }
}

proof fn lemma_binding_values(c: Ctx, v: Vec<ast::ParamBinding>, n: nat, st: St)
    ensures
        counted(list_errors(lowered_binding_values(c, v, n, st).0), st, lowered_binding_values(c, v, n, st).1),
    decreases v, n,
{
    if 0 < n <= v.len() {
        let (before, middle) = lowered_binding_values(c, v, (n - 1) as nat, st);
        let (item, after) = lowered(c, v[n - 1].value, middle);
        lemma_binding_values(c, v, (n - 1) as nat, st);
        law_one_error_per_error_node(c, v[n - 1].value, middle);
        lemma_push(before, item);
    }
}

proof fn lemma_fields(c: Ctx, v: Vec<ast::FieldInit>, n: nat, st: St)
    ensures
        counted(list_errors(lowered_fields(c, v, n, st).0), st, lowered_fields(c, v, n, st).1),
    decreases v, n,
{
    if 0 < n <= v.len() {
        let (before, middle) = lowered_fields(c, v, (n - 1) as nat, st);
        let (item, after) = lowered(c, v[n - 1].value, middle);
        lemma_fields(c, v, (n - 1) as nat, st);
        law_one_error_per_error_node(c, v[n - 1].value, middle);
        let node = node2(Tag::HirFieldInit, v[n - 1].name.term(Spans::Kept), item);
        lemma_node2(Tag::HirFieldInit, v[n - 1].name.term(Spans::Kept), item);
        lemma_push(before, node);
    }
}

proof fn lemma_arg_exprs(c: Ctx, v: Vec<ast::IndexArg>, n: nat, st: St)
    ensures
        counted(list_errors(lowered_arg_exprs(c, v, n, st).0), st, lowered_arg_exprs(c, v, n, st).1),
    decreases v, n,
{
    if 0 < n <= v.len() {
        let (before, middle) = lowered_arg_exprs(c, v, (n - 1) as nat, st);
        let (item, after) = lowered_arg_expr(c, v[n - 1], middle);
        lemma_arg_exprs(c, v, (n - 1) as nat, st);
        lemma_arg_expr(c, v[n - 1], middle);
        lemma_concat(before, item);
    }
}

proof fn lemma_key_exprs(c: Ctx, v: Vec<ast::MapEntryKey>, n: nat, st: St)
    ensures
        counted(list_errors(lowered_key_exprs(c, v, n, st).0), st, lowered_key_exprs(c, v, n, st).1),
    decreases v, n,
{
    if 0 < n <= v.len() {
        let (before, middle) = lowered_key_exprs(c, v, (n - 1) as nat, st);
        let (item, after) = lowered_key_expr(c, v[n - 1], middle);
        lemma_key_exprs(c, v, (n - 1) as nat, st);
        lemma_key_expr(c, v[n - 1], middle);
        lemma_concat(before, item);
    }
}

proof fn lemma_entries_exprs(c: Ctx, v: Vec<ast::MapEntry>, n: nat, st: St)
    ensures
        counted(list_errors(lowered_entries_exprs(c, v, n, st).0), st, lowered_entries_exprs(c, v, n, st).1),
    decreases v, n,
{
    if 0 < n <= v.len() {
        let (before, middle) = lowered_entries_exprs(c, v, (n - 1) as nat, st);
        let (item, after) = lowered_entry_exprs(c, v[n - 1], middle);
        lemma_entries_exprs(c, v, (n - 1) as nat, st);
        lemma_entry_exprs(c, v[n - 1], middle);
        lemma_concat(before, item);
    }
}

proof fn lemma_arg_expr(c: Ctx, arg: ast::IndexArg, st: St)
    ensures
        counted(list_errors(lowered_arg_expr(c, arg, st).0), st, lowered_arg_expr(c, arg, st).1),
    decreases arg,
{
    match arg {
        ast::IndexArg::Expr(e) => {
            law_one_error_per_error_node(c, *e, st);
            lemma_single(lowered(c, *e, st).0);
        },
        _ => {},
    }
}

proof fn lemma_key_expr(c: Ctx, key: ast::MapEntryKey, st: St)
    ensures
        counted(list_errors(lowered_key_expr(c, key, st).0), st, lowered_key_expr(c, key, st).1),
    decreases key,
{
    match key {
        ast::MapEntryKey::Expression { axis, expr } => {
            law_one_error_per_error_node(c, expr, st);
            lemma_single(lowered(c, expr, st).0);
        },
        _ => {},
    }
}

proof fn lemma_entry_exprs(c: Ctx, entry: ast::MapEntry, st: St)
    ensures
        counted(list_errors(lowered_entry_exprs(c, entry, st).0), st, lowered_entry_exprs(c, entry, st).1),
    decreases entry,
{
    let (first, a) = lowered_key_expr(c, *entry.keys.first, st);
    let (rest, b) = lowered_key_exprs(c, entry.keys.rest, entry.keys.rest.len() as nat, a);
    let (value, after) = lowered(c, entry.value, b);
    lemma_key_expr(c, *entry.keys.first, st);
    lemma_key_exprs(c, entry.keys.rest, entry.keys.rest.len() as nat, a);
    law_one_error_per_error_node(c, entry.value, b);
    lemma_concat(first, rest);
    lemma_concat(first + rest, seq![value]);
    lemma_single(value);
}

proof fn lemma_error_children(c: Ctx, e: ast::Expr, st: St)
    ensures
        counted(list_errors(error_children(c, e, st).0), st, error_children(c, e, st).1),
    decreases e, 1int,
{
    match e.kind {
        ast::ExprKind::BinOp { op, lhs, rhs } => {
            let (x, a) = lowered(c, *lhs, st);
            let (y, b) = lowered(c, *rhs, a);
            law_one_error_per_error_node(c, *lhs, st);
            law_one_error_per_error_node(c, *rhs, a);
            lemma_two(x, y);
        },
        ast::ExprKind::UnaryOp { op, operand } => {
            law_one_error_per_error_node(c, *operand, st);
            lemma_single(lowered(c, *operand, st).0);
        },
        ast::ExprKind::If { condition, then_branch, else_branch } => {
            let (x, a) = lowered(c, *condition, st);
            let (y, b) = lowered(c, *then_branch, a);
            let (z, d) = lowered(c, *else_branch, b);
            law_one_error_per_error_node(c, *condition, st);
            law_one_error_per_error_node(c, *then_branch, a);
            law_one_error_per_error_node(c, *else_branch, b);
            lemma_three(x, y, z);
        },
        ast::ExprKind::Convert { expr, target } => {
            law_one_error_per_error_node(c, *expr, st);
            lemma_single(lowered(c, *expr, st).0);
        },
        ast::ExprKind::DisplayTimezone { expr, timezone } => {
            law_one_error_per_error_node(c, *expr, st);
            lemma_single(lowered(c, *expr, st).0);
        },
        ast::ExprKind::FieldAccess { expr, field } => {
            law_one_error_per_error_node(c, *expr, st);
            lemma_single(lowered(c, *expr, st).0);
        },
        ast::ExprKind::ForComp { bindings, body } => {
            law_one_error_per_error_node(c, *body, st);
            lemma_single(lowered(c, *body, st).0);
        },
        ast::ExprKind::Scan { source, init, acc_name, val_name, body } => {
            let (x, a) = lowered(c, *source, st);
            let (y, b) = lowered(c, *init, a);
            let (z, d) = lowered(c, *body, b);
            law_one_error_per_error_node(c, *source, st);
            law_one_error_per_error_node(c, *init, a);
            law_one_error_per_error_node(c, *body, b);
            lemma_three(x, y, z);
        },
        ast::ExprKind::Unfold { axis, init, prev_state_name, prev_index_name, index_name, body } => {
            let (x, a) = lowered(c, *init, st);
            let (y, b) = lowered(c, *body, a);
            law_one_error_per_error_node(c, *init, st);
            law_one_error_per_error_node(c, *body, a);
            lemma_two(x, y);
        },
        ast::ExprKind::KeyForm { kind, axis, arg } => {
            law_one_error_per_error_node(c, *arg, st);
            lemma_single(lowered(c, *arg, st).0);
        },
        ast::ExprKind::FnCall { callee, generic_args, args } => lemma_exprs(c, args, args.len() as nat, st),
        ast::ExprKind::ConstructorCall { callee, generic_args, fields } => lemma_field_values(
            c,
            fields,
            fields.len() as nat,
            st,
        ),
        ast::ExprKind::MapLiteral { entries } => lemma_entries_exprs(c, entries, entries.len() as nat, st),
        ast::ExprKind::IndexAccess { expr, args } => {
            let (t, a) = lowered(c, *expr, st);
            let (first, b) = lowered_arg_expr(c, *args.first, a);
            let (rest, d) = lowered_arg_exprs(c, args.rest, args.rest.len() as nat, b);
            law_one_error_per_error_node(c, *expr, st);
            lemma_arg_expr(c, *args.first, a);
            lemma_arg_exprs(c, args.rest, args.rest.len() as nat, b);
            lemma_single(t);
            lemma_concat(seq![t], first);
            lemma_concat(seq![t] + first, rest);
        },
        ast::ExprKind::Match { scrutinee, arms } => {
            let (t, a) = lowered(c, *scrutinee, st);
            let (rest, b) = lowered_arm_bodies(c, arms, arms.len() as nat, a);
            law_one_error_per_error_node(c, *scrutinee, st);
            lemma_arm_bodies(c, arms, arms.len() as nat, a);
            lemma_single(t);
            lemma_concat(seq![t], rest);
        },
        ast::ExprKind::InlineDagRef { path, args, output } => lemma_binding_values(
            c,
            args,
            args.len() as nat,
            st,
        ),
        _ => {},
    }
}

proof fn lemma_function_arg(c: Ctx, f: Fun, only: bool, arg: ast::Expr, st: St)
    ensures
        resolved_counted(st, function_arg(c, f, only, arg, st)),
    decreases arg, 3int,
{
    law_one_error_per_error_node(c, arg, st);
    match function_arg(c, f, only, arg, st) {
        Low::Done(Term::Node(_, parts), _) => match *parts {
            Term::Pair(kind, _) => lemma_expr(*kind, arg.span),
            _ => {},
        },
        _ => {},
    }
}

proof fn lemma_zoned_args(c: Ctx, v: Vec<ast::Expr>, st: St)
    ensures
        all_counted(st, zoned_args(c, v, st)),
    decreases v, 0nat,
{
    if v.len() == 2 {
        lemma_zoned_datetime_arg(c, v[0], st);
        match zoned_datetime_arg(c, v[0], st) {
            Low::Done((datetime, literal), middle) => {
                lemma_zone_arg(c, v[1], middle);
                match zone_arg(c, v[1], middle) {
                    Low::Done((zone, name), after) => {
                        lemma_two(datetime, zone);
                        if literal is Some && name is Some {
                            match zoned_literal(literal->0, name->0, v[0].span, v[1].span) {
                                Ok(t) => {
                                    let zoned = hir_expr(node1(Tag::HirExprZonedDateTimeLiteral, t), v[0].span);
                                    lemma_leaf(node1(Tag::HirExprZonedDateTimeLiteral, t), v[0].span);
                                    lemma_two(zoned, zone);
                                },
                                Err(_) => {},
                            }
                        }
                    },
                    Low::Failed(_) => {},
                }
            },
            Low::Failed(_) => {},
        }
    }
}

proof fn lemma_zoned_datetime_arg(c: Ctx, arg: ast::Expr, st: St)
    ensures
        match zoned_datetime_arg(c, arg, st) {
            Low::Done((t, literal), after) => counted(error_nodes(t), st, after) && (literal is Some ==> after == st),
            Low::Failed(_) => true,
        },
    decreases arg, 3int,
{
    law_one_error_per_error_node(c, arg, st);
    match zoned_datetime_arg(c, arg, st) {
        Low::Done((Term::Node(_, parts), Some(_)), _) => match *parts {
            Term::Pair(kind, _) => lemma_leaf(*kind, arg.span),
            _ => {},
        },
        _ => {},
    }
}

proof fn lemma_zone_arg(c: Ctx, arg: ast::Expr, st: St)
    ensures
        match zone_arg(c, arg, st) {
            Low::Done((t, name), after) => counted(error_nodes(t), st, after),
            Low::Failed(_) => true,
        },
    decreases arg, 3int,
{
    law_one_error_per_error_node(c, arg, st);
    match zone_arg(c, arg, st) {
        Low::Done((Term::Node(_, parts), Some(_)), _) => match *parts {
            Term::Pair(kind, _) => lemma_leaf(*kind, arg.span),
            _ => {},
        },
        _ => {},
    }
}

proof fn lemma_function_args(c: Ctx, f: Fun, v: Vec<ast::Expr>, n: nat, st: St)
    ensures
        all_counted(st, function_args_upto(c, f, v, n, st)),
    decreases v, n,
{
    if 0 < n <= v.len() {
        lemma_function_args(c, f, v, (n - 1) as nat, st);
        match function_args_upto(c, f, v, (n - 1) as nat, st) {
            Low::Done(before, middle) => {
                lemma_function_arg(c, f, v.len() == 1, v[n - 1], middle);
                match function_arg(c, f, v.len() == 1, v[n - 1], middle) {
                    Low::Done(item, after) => {
                        lemma_push(before, item);
                    },
                    Low::Failed(_) => {},
                }
            },
            Low::Failed(_) => {},
        }
    }
}

proof fn lemma_key(c: Ctx, key: ast::MapEntryKey, map_span: Span, st: St)
    ensures
        resolved_counted(st, lowered_key(c, key, map_span, st)),
    decreases key,
{
    match key {
        ast::MapEntryKey::Expression { axis, expr } => {
            law_one_error_per_error_node(c, expr, st);
            match lowered_key(c, key, map_span, st) {
                Low::Done(Term::Node(_, parts), _) => match *parts {
                    Term::Pair(a, b) => lemma_node2(Tag::HirMapEntryKeyExpression, *a, *b),
                    _ => {},
                },
                _ => {},
            }
        },
        ast::MapEntryKey::Discrete { index, additional_index_spans, entry } => reveal(discrete_key),
    }
}

proof fn lemma_keys(c: Ctx, v: Vec<ast::MapEntryKey>, n: nat, map_span: Span, st: St)
    ensures
        all_counted(st, lowered_keys(c, v, n, map_span, st)),
    decreases v, n,
{
    if 0 < n <= v.len() {
        lemma_keys(c, v, (n - 1) as nat, map_span, st);
        match lowered_keys(c, v, (n - 1) as nat, map_span, st) {
            Low::Done(before, middle) => {
                lemma_key(c, v[n - 1], map_span, middle);
                match lowered_key(c, v[n - 1], map_span, middle) {
                    Low::Done(item, after) => {
                        lemma_push(before, item);
                    },
                    Low::Failed(_) => {},
                }
            },
            Low::Failed(_) => {},
        }
    }
}

proof fn lemma_entry(c: Ctx, entry: ast::MapEntry, map_span: Span, st: St)
    ensures
        resolved_counted(st, lowered_entry(c, entry, map_span, st)),
    decreases entry,
{
    lemma_key(c, *entry.keys.first, map_span, st);
    match lowered_key(c, *entry.keys.first, map_span, st) {
        Low::Done(first, a) => {
            lemma_keys(c, entry.keys.rest, entry.keys.rest.len() as nat, map_span, a);
            match lowered_keys(c, entry.keys.rest, entry.keys.rest.len() as nat, map_span, a) {
                Low::Done(rest, b) => {
                    let (value, after) = lowered(c, entry.value, b);
                    law_one_error_per_error_node(c, entry.value, b);
                    lemma_single(first);
                    lemma_concat(seq![first], rest);
                    lemma_node2(Tag::HirMapEntry, Term::List(prepend(first, rest)), value);
                },
                Low::Failed(_) => {},
            }
        },
        Low::Failed(_) => {},
    }
}

proof fn lemma_entries(c: Ctx, v: Vec<ast::MapEntry>, n: nat, map_span: Span, st: St)
    ensures
        all_counted(st, lowered_entries(c, v, n, map_span, st)),
    decreases v, n,
{
    if 0 < n <= v.len() {
        lemma_entries(c, v, (n - 1) as nat, map_span, st);
        match lowered_entries(c, v, (n - 1) as nat, map_span, st) {
            Low::Done(before, middle) => {
                lemma_entry(c, v[n - 1], map_span, middle);
                match lowered_entry(c, v[n - 1], map_span, middle) {
                    Low::Done(item, after) => {
                        lemma_push(before, item);
                    },
                    Low::Failed(_) => {},
                }
            },
            Low::Failed(_) => {},
        }
    }
}

proof fn lemma_for_binding(c: Ctx, binding: ForBinding, st: St)
    ensures
        match for_binding(c, binding, st) {
            Low::Done((item, _), after) => counted(error_nodes(item), st, after),
            Low::Failed(_) => true,
        },
{
    reveal(for_binding);
    match for_binding(c, binding, st) {
        Low::Done((item, local), after) => {
            lemma_local(local);
            match for_index(c, binding.index) {
                Ok(index) => lemma_node2(Tag::HirForBinding, local.to_term(), index),
                Err(_) => {},
            }
        },
        Low::Failed(_) => {},
    }
}

proof fn lemma_for_bindings(c: Ctx, v: Seq<ForBinding>, n: nat, st: St)
    ensures
        match for_bindings(c, v, n, st) {
            Low::Done((items, _), after) => counted(list_errors(items), st, after),
            Low::Failed(_) => true,
        },
    decreases n,
{
    if 0 < n <= v.len() {
        lemma_for_bindings(c, v, (n - 1) as nat, st);
        match for_bindings(c, v, (n - 1) as nat, st) {
            Low::Done((before, _), middle) => {
                lemma_for_binding(c, v[n - 1], middle);
                match for_binding(c, v[n - 1], middle) {
                    Low::Done((item, _), after) => {
                        lemma_push(before, item);
                    },
                    Low::Failed(_) => {},
                }
            },
            Low::Failed(_) => {},
        }
    }
}

proof fn lemma_pattern_binding(binding: PatternBinding, st: St)
    ensures
        match pattern_binding(binding, st) {
            Low::Done((item, _), after) => counted(error_nodes(item), st, after),
            Low::Failed(_) => true,
        },
{
    reveal(pattern_binding);
    match binding {
        PatternBinding::Bind { field, var } => match allocated(st, var.name.text@, var.span) {
            Low::Done(local, after) => {
                lemma_local(local);
                lemma_node2(Tag::HirPatternBindingBind, field.term(Spans::Kept), local.to_term());
            },
            Low::Failed(_) => {},
        },
        PatternBinding::Wildcard { field, span } => {},
    }
}

proof fn lemma_pattern_bindings(v: Seq<PatternBinding>, n: nat, st: St)
    ensures
        match pattern_bindings(v, n, st) {
            Low::Done((items, _), after) => counted(list_errors(items), st, after),
            Low::Failed(_) => true,
        },
    decreases n,
{
    if 0 < n <= v.len() {
        lemma_pattern_bindings(v, (n - 1) as nat, st);
        match pattern_bindings(v, (n - 1) as nat, st) {
            Low::Done((before, _), middle) => {
                lemma_pattern_binding(v[n - 1], middle);
                match pattern_binding(v[n - 1], middle) {
                    Low::Done((item, _), after) => {
                        lemma_push(before, item);
                    },
                    Low::Failed(_) => {},
                }
            },
            Low::Failed(_) => {},
        }
    }
}

proof fn lemma_constructor_pattern(constructor: Term, at: Span, bindings: Seq<PatternBinding>, span: Span, st: St)
    ensures
        match constructor_pattern(constructor, at, bindings, span, st) {
            Low::Done((item, _), after) => counted(error_nodes(item), st, after),
            Low::Failed(_) => true,
        },
{
    reveal(constructor_pattern);
    lemma_pattern_bindings(bindings, bindings.len(), st);
    match pattern_bindings(bindings, bindings.len(), st) {
        Low::Done((items, _), _) => {
            let list = Term::List(items);
            lemma_node3(Tag::HirMatchPatternConstructor, pair(constructor, Term::At(at)), list, Term::At(span));
        },
        Low::Failed(_) => {},
    }
}

proof fn lemma_pattern(c: Ctx, pattern: MatchPattern, st: St)
    ensures
        match match_pattern(c, pattern, st) {
            Low::Done((item, _), after) => counted(error_nodes(item), st, after),
            Low::Failed(_) => true,
        },
{
    reveal(match_pattern);
    reveal(path_pattern);
    match pattern {
        MatchPattern::Path { path, bindings, span } => match constructor_of(c, idents_of(path)) {
            Ok(t) => lemma_constructor_pattern(t, ident_path_span(path), bindings@, span, st),
            Err(_) => {},
        },
        MatchPattern::Constructor { name, bindings, span } => match constructor_of(c, seq![name.value.atom.text@]) {
            Ok(t) => lemma_constructor_pattern(t, name.span, bindings@, span, st),
            Err(_) => {},
        },
        MatchPattern::IndexLabel { index, variant, span } => {},
    }
}

proof fn lemma_fold_locals(names: Seq<Spanned<LocalName>>, n: nat, st: St)
    ensures
        match fold_locals(names, n, st) {
            Low::Done(_, after) => after.errors == st.errors,
            Low::Failed(_) => true,
        },
    decreases n,
{
    if 0 < n <= names.len() {
        lemma_fold_locals(names, (n - 1) as nat, st);
    }
}

proof fn lemma_in_scope(c: Ctx, e: ast::Expr, locals: Seq<Local>, st: St)
    ensures
        resolved_counted(st, lowered_in(c, e, locals, st)),
    decreases e, 3int,
{
    law_one_error_per_error_node(c, e, St { scopes: st.scopes.push(locals), ..st });
}

proof fn lemma_index_arg(c: Ctx, arg: ast::IndexArg, st: St)
    ensures
        resolved_counted(st, index_arg(c, arg, st)),
    decreases arg,
{
    match arg {
        ast::IndexArg::Expr(e) => {
            law_one_error_per_error_node(c, *e, st);
            lemma_node1(Tag::HirIndexArgExpr, lowered(c, *e, st).0);
        },
        _ => {},
    }
}

proof fn lemma_index_args(c: Ctx, v: Vec<ast::IndexArg>, n: nat, st: St)
    ensures
        all_counted(st, index_args(c, v, n, st)),
    decreases v, n,
{
    if 0 < n <= v.len() {
        lemma_index_args(c, v, (n - 1) as nat, st);
        match index_args(c, v, (n - 1) as nat, st) {
            Low::Done(before, middle) => {
                lemma_index_arg(c, v[n - 1], middle);
                match index_arg(c, v[n - 1], middle) {
                    Low::Done(item, after) => {
                        lemma_push(before, item);
                    },
                    Low::Failed(_) => {},
                }
            },
            Low::Failed(_) => {},
        }
    }
}

proof fn lemma_arm(c: Ctx, arm: ast::MatchArm, st: St)
    ensures
        resolved_counted(st, lowered_arm(c, arm, st)),
    decreases arm,
{
    lemma_pattern(c, arm.pattern, st);
    match match_pattern(c, arm.pattern, st) {
        Low::Done((pattern, locals), middle) => {
            lemma_in_scope(c, arm.body, locals, middle);
            match lowered_in(c, arm.body, locals, middle) {
                Low::Done(body, after) => {
                    lemma_node3(Tag::HirMatchArm, pattern, body, Term::At(arm.span));
                },
                Low::Failed(_) => {},
            }
        },
        Low::Failed(_) => {},
    }
}

proof fn lemma_arms(c: Ctx, v: Vec<ast::MatchArm>, n: nat, st: St)
    ensures
        all_counted(st, lowered_arms(c, v, n, st)),
    decreases v, n,
{
    if 0 < n <= v.len() {
        lemma_arms(c, v, (n - 1) as nat, st);
        match lowered_arms(c, v, (n - 1) as nat, st) {
            Low::Done(before, middle) => {
                lemma_arm(c, v[n - 1], middle);
                match lowered_arm(c, v[n - 1], middle) {
                    Low::Done(item, after) => {
                        lemma_push(before, item);
                    },
                    Low::Failed(_) => {},
                }
            },
            Low::Failed(_) => {},
        }
    }
}

proof fn lemma_param_binding(c: Ctx, target: Seq<Seq<char>>, binding: ast::ParamBinding, st: St)
    ensures
        resolved_counted(st, param_binding(c, target, binding, st)),
    decreases binding,
{
    law_one_error_per_error_node(c, binding.value, st);
    match param_binding(c, target, binding, st) {
        Low::Done(Term::Node(_, parts), _) => match *parts {
            Term::Pair(a, b) => lemma_node2(Tag::HirParamBinding, *a, *b),
            _ => {},
        },
        _ => {},
    }
}

proof fn lemma_param_bindings(c: Ctx, target: Seq<Seq<char>>, v: Vec<ast::ParamBinding>, n: nat, st: St)
    ensures
        all_counted(st, param_bindings(c, target, v, n, st)),
    decreases v, n,
{
    if 0 < n <= v.len() {
        lemma_param_bindings(c, target, v, (n - 1) as nat, st);
        match param_bindings(c, target, v, (n - 1) as nat, st) {
            Low::Done(before, middle) => {
                lemma_param_binding(c, target, v[n - 1], middle);
                match param_binding(c, target, v[n - 1], middle) {
                    Low::Done(item, after) => {
                        lemma_push(before, item);
                    },
                    Low::Failed(_) => {},
                }
            },
            Low::Failed(_) => {},
        }
    }
}

proof fn lemma_call(c: Ctx, callee: IdentPath, generics: Vec<ast::GenericArg>, args: Vec<ast::Expr>, st: St)
    ensures
        resolved_counted(st, lowered_call(c, callee, generics, args, st)),
    decreases args, args.len() + 2,
{
    let span = ident_path_span(callee);
    match function_ref(c, callee) {
        Ok(named) => match function_application(named, generics@, dotted_path(idents_of(callee)), span) {
            Ok(f) => {
                lemma_all_args(c, f, args, st);
                match function_args(c, f, args, st) {
                    Low::Done(items, _) => lemma_node2(
                        Tag::HirExprFnCall,
                        pair(f.to_term(), Term::At(span)),
                        Term::List(items),
                    ),
                    Low::Failed(_) => {},
                }
            },
            Err(_) => {},
        },
        Err(_) => {},
    }
}

proof fn lemma_all_args(c: Ctx, f: Fun, v: Vec<ast::Expr>, st: St)
    ensures
        all_counted(st, function_args(c, f, v, st)),
    decreases v, v.len() + 1,
{
    lemma_zoned_args(c, v, st);
    lemma_function_args(c, f, v, v.len() as nat, st);
}

proof fn lemma_constructor(
    c: Ctx,
    callee: IdentPath,
    generics: Vec<ast::GenericArg>,
    fields: Vec<ast::FieldInit>,
    span: Span,
    st: St,
)
    ensures
        resolved_counted(st, lowered_constructor(c, callee, generics, fields, span, st)),
    decreases fields, fields.len() + 1,
{
    lemma_fields(c, fields, fields.len() as nat, st);
    match lowered_constructor(c, callee, generics, fields, span, st) {
        Low::Done(Term::Node(_, parts), _) => match *parts {
            Term::Pair(a, rest) => match *rest {
                Term::Pair(b, d) => lemma_node3(Tag::HirExprConstructorCall, *a, *b, *d),
                _ => {},
            },
            _ => {},
        },
        _ => {},
    }
}

proof fn lemma_dag_call(
    c: Ctx,
    path: ModulePath,
    args: Vec<ast::ParamBinding>,
    output: Spanned<DeclName>,
    st: St,
)
    ensures
        resolved_counted(st, dag_call(c, path, args, output, st)),
    decreases args, args.len() + 1,
{
    match module_resolution(c.modules, c.owner, segment_names(path.segments)) {
        Ok(target) => {
            lemma_param_bindings(c, target, args, args.len() as nat, st);
            match dag_call(c, path, args, output, st) {
                Low::Done(Term::Node(_, parts), _) => match *parts {
                    Term::Pair(a, rest) => match *rest {
                        Term::Pair(b, d) => lemma_node3(Tag::HirExprDagCall, *a, *b, *d),
                        _ => {},
                    },
                    _ => {},
                },
                _ => {},
            }
        },
        Err(_) => {},
    }
}

proof fn lemma_dotted(c: Ctx, path: IdentPath)
    ensures
        dotted_ref(c, path) is Ok ==> error_nodes(dotted_ref(c, path)->Ok_0) == 0,
{
    reveal(dotted_ref);
}

proof fn lemma_module_ref(c: Ctx, name: Seq<char>, span: Span)
    ensures
        module_ref(c, name, span) is Ok ==> error_nodes(module_ref(c, name, span)->Ok_0) == 0,
{
    reveal(module_ref);
    assert(list_errors(Seq::empty()) == 0);
    match constructor_of(c, seq![name]) {
        Ok(t) => lemma_node3(
            Tag::HirExprConstructorCall,
            pair(t, Term::At(span)),
            Term::List(Seq::empty()),
            Term::List(Seq::empty()),
        ),
        Err(_) => {},
    }
}

proof fn lemma_reference(c: Ctx, st: St, path: IdentPath)
    ensures
        unresolved_ref(c, st, path) is Ok ==> error_nodes(unresolved_ref(c, st, path)->Ok_0) == 0,
{
    reveal(unresolved_ref);
    lemma_dotted(c, path);
    lemma_module_ref(c, idents_of(path)[0], path.segments@[0].span);
}

proof fn lemma_kind(c: Ctx, e: ast::Expr, st: St)
    ensures
        resolved_counted(st, lowered_kind(c, e, st)),
    decreases e, 1int,
{
    match e.kind {
        ast::ExprKind::UnresolvedRef(UnresolvedRef::Path(path)) => lemma_reference(c, st, path),
        ast::ExprKind::BinOp { op, lhs, rhs } => {
            let (x, a) = lowered(c, *lhs, st);
            let (y, b) = lowered(c, *rhs, a);
            law_one_error_per_error_node(c, *lhs, st);
            law_one_error_per_error_node(c, *rhs, a);
            lemma_node3(Tag::HirExprBinOp, Term::Symbol(Symbol::BinOp(op)), x, y);
        },
        ast::ExprKind::If { condition, then_branch, else_branch } => {
            let (x, a) = lowered(c, *condition, st);
            let (y, b) = lowered(c, *then_branch, a);
            let (z, d) = lowered(c, *else_branch, b);
            law_one_error_per_error_node(c, *condition, st);
            law_one_error_per_error_node(c, *then_branch, a);
            law_one_error_per_error_node(c, *else_branch, b);
            lemma_node3(Tag::HirExprIf, x, y, z);
        },
        ast::ExprKind::UnaryOp { op, operand } => {
            law_one_error_per_error_node(c, *operand, st);
            match lowered_kind(c, e, st) {
                Low::Done(Term::Node(_, parts), _) => match *parts {
                    Term::Pair(a, b) => lemma_node2(Tag::HirExprUnaryOp, *a, *b),
                    _ => {},
                },
                _ => {},
            }
        },
        ast::ExprKind::Convert { expr, target } => {
            law_one_error_per_error_node(c, *expr, st);
            match lowered_kind(c, e, st) {
                Low::Done(Term::Node(_, parts), _) => match *parts {
                    Term::Pair(a, b) => lemma_node2(Tag::HirExprConvert, *a, *b),
                    _ => {},
                },
                _ => {},
            }
        },
        ast::ExprKind::DisplayTimezone { expr, timezone } => {
            law_one_error_per_error_node(c, *expr, st);
            match lowered_kind(c, e, st) {
                Low::Done(Term::Node(_, parts), _) => match *parts {
                    Term::Pair(a, b) => lemma_node2(Tag::HirExprDisplayTimezone, *a, *b),
                    _ => {},
                },
                _ => {},
            }
        },
        ast::ExprKind::FieldAccess { expr, field } => {
            reveal(alias_field);
            law_one_error_per_error_node(c, *expr, st);
            lemma_node2(Tag::HirExprFieldAccess, lowered(c, *expr, st).0, field.term(Spans::Kept));
        },
        ast::ExprKind::KeyForm { kind, axis, arg } => lemma_key_form(c, e, st),
        ast::ExprKind::FnCall { callee, generic_args, args } => lemma_call(c, callee, generic_args, args, st),
        ast::ExprKind::ConstructorCall { callee, generic_args, fields } => lemma_constructor(
            c,
            callee,
            generic_args,
            fields,
            e.span,
            st,
        ),
        ast::ExprKind::MapLiteral { entries } => {
            lemma_entries(c, entries, entries.len() as nat, e.span, st);
            match lowered_entries(c, entries, entries.len() as nat, e.span, st) {
                Low::Done(items, _) => lemma_node1(Tag::HirExprMapLiteral, Term::List(items)),
                Low::Failed(_) => {},
            }
        },
        ast::ExprKind::InlineDagRef { path, args, output } => lemma_dag_call(c, path, args, output, st),
        ast::ExprKind::IndexAccess { expr, args } => {
            let (t, a) = lowered(c, *expr, st);
            law_one_error_per_error_node(c, *expr, st);
            lemma_index_arg(c, *args.first, a);
            match index_arg(c, *args.first, a) {
                Low::Done(first, b) => {
                    lemma_index_args(c, args.rest, args.rest.len() as nat, b);
                    match index_args(c, args.rest, args.rest.len() as nat, b) {
                        Low::Done(rest, after) => {
                            lemma_single(first);
                            lemma_concat(seq![first], rest);
                            lemma_node2(Tag::HirExprIndexAccess, t, Term::List(prepend(first, rest)));
                        },
                        Low::Failed(_) => {},
                    }
                },
                Low::Failed(_) => {},
            }
        },
        ast::ExprKind::Match { scrutinee, arms } => {
            let (t, a) = lowered(c, *scrutinee, st);
            law_one_error_per_error_node(c, *scrutinee, st);
            lemma_arms(c, arms, arms.len() as nat, a);
            match lowered_arms(c, arms, arms.len() as nat, a) {
                Low::Done(items, after) => {
                    lemma_node2(Tag::HirExprMatch, t, Term::List(items));
                },
                Low::Failed(_) => {},
            }
        },
        ast::ExprKind::ForComp { bindings, body } => {
            lemma_for_bindings(c, bindings@, bindings@.len(), st);
            match for_bindings(c, bindings@, bindings@.len(), st) {
                Low::Done((items, locals), middle) => {
                    lemma_in_scope(c, *body, locals, middle);
                    match lowered_in(c, *body, locals, middle) {
                        Low::Done(t, after) => {
                            lemma_node2(Tag::HirExprForComp, Term::List(items), t);
                        },
                        Low::Failed(_) => {},
                    }
                },
                Low::Failed(_) => {},
            }
        },
        ast::ExprKind::Scan { source, init, acc_name, val_name, body } => lemma_scan(c, e, st),
        ast::ExprKind::Unfold {
            axis,
            init,
            prev_state_name,
            prev_index_name,
            index_name,
            body,
        } => lemma_unfold(c, e, st),
        _ => {},
    }
}

proof fn lemma_key_form(c: Ctx, e: ast::Expr, st: St)
    requires
        e.kind is KeyForm,
    ensures
        resolved_counted(st, lowered_kind(c, e, st)),
    decreases e, 0int,
{
    match e.kind {
        ast::ExprKind::KeyForm { kind, axis, arg } => {
            let (t, _) = lowered(c, *arg, st);
            law_one_error_per_error_node(c, *arg, st);
            match key_axis(c, axis) {
                Ok(index) => {
                    let at = Term::At(index_expr_span(axis));
                    lemma_node3(Tag::HirExprKeyForm, Term::Symbol(Symbol::KeyFormKind(kind)), index, pair(at, t));
                    assert(error_nodes(pair(at, t)) == error_nodes(t)) by {
                        reveal_with_fuel(error_nodes, 2);
                    }
                },
                Err(_) => {},
            }
        },
        _ => {},
    }
}

proof fn lemma_scan(c: Ctx, e: ast::Expr, st: St)
    requires
        e.kind is Scan,
    ensures
        resolved_counted(st, lowered_kind(c, e, st)),
    decreases e, 0int,
{
    match e.kind {
        ast::ExprKind::Scan { source, init, acc_name, val_name, body } => {
            let (x, a) = lowered(c, *source, st);
            let (y, b) = lowered(c, *init, a);
            let names = seq![acc_name, val_name];
            law_one_error_per_error_node(c, *source, st);
            law_one_error_per_error_node(c, *init, a);
            lemma_fold_locals(names, 2, b);
            match fold_locals(names, 2, b) {
                Low::Done(locals, middle) => {
                    lemma_in_scope(c, *body, locals, middle);
                    match lowered_in(c, *body, locals, middle) {
                        Low::Done(z, after) => {
                            let bound = pair(locals[0].to_term(), pair(locals[1].to_term(), z));
                            lemma_local(locals[0]);
                            lemma_local(locals[1]);
                            assert(error_nodes(bound) == error_nodes(z)) by {
                                reveal_with_fuel(error_nodes, 3);
                            }
                            lemma_node3(Tag::HirExprScan, x, y, bound);
                        },
                        Low::Failed(_) => {},
                    }
                },
                Low::Failed(_) => {},
            }
        },
        _ => {},
    }
}

proof fn lemma_unfold(c: Ctx, e: ast::Expr, st: St)
    requires
        e.kind is Unfold,
    ensures
        resolved_counted(st, lowered_kind(c, e, st)),
    decreases e, 0int,
{
    match e.kind {
        ast::ExprKind::Unfold { axis, init, prev_state_name, prev_index_name, index_name, body } => {
            let (x, a) = lowered(c, *init, st);
            let names = seq![prev_state_name, prev_index_name, index_name];
            law_one_error_per_error_node(c, *init, st);
            lemma_fold_locals(names, 3, a);
            match (spanned_index(c, axis), fold_locals(names, 3, a)) {
                (Ok(index), Low::Done(locals, middle)) => {
                    lemma_in_scope(c, *body, locals, middle);
                    match lowered_in(c, *body, locals, middle) {
                        Low::Done(y, after) => {
                            let later = pair(locals[1].to_term(), locals[2].to_term());
                            let recurrence = node3(Tag::HirUnfoldRecurrence, index, locals[0].to_term(), later);
                            lemma_node3(Tag::HirUnfoldRecurrence, index, locals[0].to_term(), later);
                            lemma_local(locals[0]);
                            lemma_local(locals[1]);
                            lemma_local(locals[2]);
                            assert(error_nodes(recurrence) == 0) by {
                                reveal_with_fuel(error_nodes, 2);
                            }
                            lemma_node3(Tag::HirExprUnfold, recurrence, x, y);
                        },
                        Low::Failed(_) => {},
                    }
                },
                _ => {},
            }
        },
        _ => {},
    }
}

} // verus!
