//! What holds of name resolution as a whole.

use crate::desugar::desugared_ast as ast;
use crate::hir::context::Ctx;
use crate::hir::lowering::{
    alias_field, bare_ref, constructor_pattern, dag_call, dotted_ref, error_children, fold_locals, for_binding,
    for_bindings, function_application, function_arg, function_args, function_args_upto, function_ref, has_tag,
    hir_expr, ident_path_span, index_arg, index_args, local_of_name, lowered, lowered_arg_expr, lowered_arg_exprs,
    lowered_arm, lowered_arm_bodies, lowered_arms, lowered_binding_values, lowered_call, lowered_constructor,
    lowered_entries, lowered_entries_exprs, lowered_entry, lowered_entry_exprs, lowered_exprs, lowered_field_values,
    lowered_fields, lowered_in, lowered_key, lowered_key_expr, lowered_key_exprs, lowered_keys, lowered_kind,
    match_pattern, module_ref, param_binding, param_bindings, path_pattern, pattern_binding, pattern_bindings,
    segment_names, unresolved_ref, zone_arg, zoned_args, zoned_datetime_arg, Fun, Local, Low, St,
};
use crate::hir::resolve::{
    dotted_path, idents_of, module_at, module_resolution, resolution, symbol_at, ModuleSymbols, Namespace, Target,
};
use crate::syntax::ast::{ForBinding, IdentPath, MatchPattern, ModulePath, PatternBinding, UnresolvedRef};
use crate::syntax::names::{DeclName, LocalName};
use crate::syntax::span::{Span, Spanned};
use crate::syntax::term::{node1, pair, Tag, Term};
use vstd::prelude::*;

verus! {

/// Whether `after` differs from `before` only in later errors and in locals
/// that were counted since.
pub open spec fn keeps(before: St, after: St) -> bool {
    &&& after.scopes == before.scopes
    &&& after.next >= before.next
    &&& after.errors.len() >= before.errors.len()
    &&& after.errors.take(before.errors.len() as int) == before.errors
}

pub(crate) proof fn lemma_keeps(a: St, b: St, c: St)
    ensures
        keeps(a, a),
        keeps(a, b) && keeps(b, c) ==> keeps(a, c),
{
    assert(a.errors.take(a.errors.len() as int) =~= a.errors);
    if keeps(a, b) && keeps(b, c) {
        assert(c.errors.take(a.errors.len() as int) =~= b.errors.take(a.errors.len() as int));
    }
}

/// Whether a part that resolved kept what was known before.
pub open spec fn kept<T>(before: St, r: Low<T>) -> bool {
    match r {
        Low::Done(_, after) => keeps(before, after),
        Low::Failed(_) => true,
    }
}

/// Resolving an expression leaves the scopes as they were, never gives a
/// number of a local out twice, and keeps the errors that are already there.
pub proof fn law_resolution_keeps_scopes(c: Ctx, e: ast::Expr, st: St)
    ensures
        keeps(st, lowered(c, e, st).1),
    decreases e, 2int,
{
    lemma_kind(c, e, st);
    match lowered_kind(c, e, st) {
        Low::Done(_, _) => {},
        Low::Failed(error) => {
            let failed = St { errors: st.errors.push(error), ..st };
            assert(failed.errors.take(st.errors.len() as int) =~= st.errors);
            lemma_error_children(c, e, failed);
            lemma_keeps(st, failed, error_children(c, e, failed).1);
        },
    }
}

pub(crate) proof fn lemma_exprs(c: Ctx, v: Vec<ast::Expr>, n: nat, st: St)
    ensures
        keeps(st, lowered_exprs(c, v, n, st).1),
    decreases v, n,
{
    lemma_keeps(st, st, st);
    if 0 < n <= v.len() {
        let middle = lowered_exprs(c, v, (n - 1) as nat, st).1;
        lemma_exprs(c, v, (n - 1) as nat, st);
        law_resolution_keeps_scopes(c, v[n - 1], middle);
        lemma_keeps(st, middle, lowered_exprs(c, v, n, st).1);
    }
}

pub(crate) proof fn lemma_field_values(c: Ctx, v: Vec<ast::FieldInit>, n: nat, st: St)
    ensures
        keeps(st, lowered_field_values(c, v, n, st).1),
    decreases v, n,
{
    lemma_keeps(st, st, st);
    if 0 < n <= v.len() {
        let middle = lowered_field_values(c, v, (n - 1) as nat, st).1;
        lemma_field_values(c, v, (n - 1) as nat, st);
        law_resolution_keeps_scopes(c, v[n - 1].value, middle);
        lemma_keeps(st, middle, lowered_field_values(c, v, n, st).1);
    }
}

pub(crate) proof fn lemma_arm_bodies(c: Ctx, v: Vec<ast::MatchArm>, n: nat, st: St)
    ensures
        keeps(st, lowered_arm_bodies(c, v, n, st).1),
    decreases v, n,
{
    lemma_keeps(st, st, st);
    if 0 < n <= v.len() {
        let middle = lowered_arm_bodies(c, v, (n - 1) as nat, st).1;
        lemma_arm_bodies(c, v, (n - 1) as nat, st);
        law_resolution_keeps_scopes(c, v[n - 1].body, middle);
        lemma_keeps(st, middle, lowered_arm_bodies(c, v, n, st).1);
    }
}

pub(crate) proof fn lemma_binding_values(c: Ctx, v: Vec<ast::ParamBinding>, n: nat, st: St)
    ensures
        keeps(st, lowered_binding_values(c, v, n, st).1),
    decreases v, n,
{
    lemma_keeps(st, st, st);
    if 0 < n <= v.len() {
        let middle = lowered_binding_values(c, v, (n - 1) as nat, st).1;
        lemma_binding_values(c, v, (n - 1) as nat, st);
        law_resolution_keeps_scopes(c, v[n - 1].value, middle);
        lemma_keeps(st, middle, lowered_binding_values(c, v, n, st).1);
    }
}

pub(crate) proof fn lemma_fields(c: Ctx, v: Vec<ast::FieldInit>, n: nat, st: St)
    ensures
        keeps(st, lowered_fields(c, v, n, st).1),
    decreases v, n,
{
    lemma_keeps(st, st, st);
    if 0 < n <= v.len() {
        let middle = lowered_fields(c, v, (n - 1) as nat, st).1;
        lemma_fields(c, v, (n - 1) as nat, st);
        law_resolution_keeps_scopes(c, v[n - 1].value, middle);
        lemma_keeps(st, middle, lowered_fields(c, v, n, st).1);
    }
}

pub(crate) proof fn lemma_arg_exprs(c: Ctx, v: Vec<ast::IndexArg>, n: nat, st: St)
    ensures
        keeps(st, lowered_arg_exprs(c, v, n, st).1),
    decreases v, n,
{
    lemma_keeps(st, st, st);
    if 0 < n <= v.len() {
        let middle = lowered_arg_exprs(c, v, (n - 1) as nat, st).1;
        lemma_arg_exprs(c, v, (n - 1) as nat, st);
        lemma_arg_expr(c, v[n - 1], middle);
        lemma_keeps(st, middle, lowered_arg_exprs(c, v, n, st).1);
    }
}

pub(crate) proof fn lemma_key_exprs(c: Ctx, v: Vec<ast::MapEntryKey>, n: nat, st: St)
    ensures
        keeps(st, lowered_key_exprs(c, v, n, st).1),
    decreases v, n,
{
    lemma_keeps(st, st, st);
    if 0 < n <= v.len() {
        let middle = lowered_key_exprs(c, v, (n - 1) as nat, st).1;
        lemma_key_exprs(c, v, (n - 1) as nat, st);
        lemma_key_expr(c, v[n - 1], middle);
        lemma_keeps(st, middle, lowered_key_exprs(c, v, n, st).1);
    }
}

pub(crate) proof fn lemma_entries_exprs(c: Ctx, v: Vec<ast::MapEntry>, n: nat, st: St)
    ensures
        keeps(st, lowered_entries_exprs(c, v, n, st).1),
    decreases v, n,
{
    lemma_keeps(st, st, st);
    if 0 < n <= v.len() {
        let middle = lowered_entries_exprs(c, v, (n - 1) as nat, st).1;
        lemma_entries_exprs(c, v, (n - 1) as nat, st);
        lemma_entry_exprs(c, v[n - 1], middle);
        lemma_keeps(st, middle, lowered_entries_exprs(c, v, n, st).1);
    }
}

pub(crate) proof fn lemma_arg_expr(c: Ctx, arg: ast::IndexArg, st: St)
    ensures
        keeps(st, lowered_arg_expr(c, arg, st).1),
    decreases arg,
{
    lemma_keeps(st, st, st);
    match arg {
        ast::IndexArg::Expr(e) => law_resolution_keeps_scopes(c, *e, st),
        _ => {},
    }
}

pub(crate) proof fn lemma_key_expr(c: Ctx, key: ast::MapEntryKey, st: St)
    ensures
        keeps(st, lowered_key_expr(c, key, st).1),
    decreases key,
{
    lemma_keeps(st, st, st);
    match key {
        ast::MapEntryKey::Expression { axis, expr } => law_resolution_keeps_scopes(c, expr, st),
        _ => {},
    }
}

pub(crate) proof fn lemma_entry_exprs(c: Ctx, entry: ast::MapEntry, st: St)
    ensures
        keeps(st, lowered_entry_exprs(c, entry, st).1),
    decreases entry,
{
    let a = lowered_key_expr(c, *entry.keys.first, st).1;
    let b = lowered_key_exprs(c, entry.keys.rest, entry.keys.rest.len() as nat, a).1;
    lemma_key_expr(c, *entry.keys.first, st);
    lemma_key_exprs(c, entry.keys.rest, entry.keys.rest.len() as nat, a);
    law_resolution_keeps_scopes(c, entry.value, b);
    lemma_keeps(st, a, b);
    lemma_keeps(st, b, lowered(c, entry.value, b).1);
}

pub(crate) proof fn lemma_error_children(c: Ctx, e: ast::Expr, st: St)
    ensures
        keeps(st, error_children(c, e, st).1),
    decreases e, 1int,
{
    lemma_keeps(st, st, st);
    match e.kind {
        ast::ExprKind::BinOp { op, lhs, rhs } => {
            law_resolution_keeps_scopes(c, *lhs, st);
            let s0 = lowered(c, *lhs, st).1;
            law_resolution_keeps_scopes(c, *rhs, s0);
            let s1 = lowered(c, *rhs, s0).1;
            lemma_keeps(st, s0, s1);
        },
        ast::ExprKind::UnaryOp { op, operand } => {
            law_resolution_keeps_scopes(c, *operand, st);
            let s0 = lowered(c, *operand, st).1;
        },
        ast::ExprKind::If { condition, then_branch, else_branch } => {
            law_resolution_keeps_scopes(c, *condition, st);
            let s0 = lowered(c, *condition, st).1;
            law_resolution_keeps_scopes(c, *then_branch, s0);
            let s1 = lowered(c, *then_branch, s0).1;
            lemma_keeps(st, s0, s1);
            law_resolution_keeps_scopes(c, *else_branch, s1);
            let s2 = lowered(c, *else_branch, s1).1;
            lemma_keeps(st, s1, s2);
        },
        ast::ExprKind::Convert { expr, target } => {
            law_resolution_keeps_scopes(c, *expr, st);
            let s0 = lowered(c, *expr, st).1;
        },
        ast::ExprKind::DisplayTimezone { expr, timezone } => {
            law_resolution_keeps_scopes(c, *expr, st);
            let s0 = lowered(c, *expr, st).1;
        },
        ast::ExprKind::FieldAccess { expr, field } => {
            law_resolution_keeps_scopes(c, *expr, st);
            let s0 = lowered(c, *expr, st).1;
        },
        ast::ExprKind::ForComp { bindings, body } => {
            law_resolution_keeps_scopes(c, *body, st);
            let s0 = lowered(c, *body, st).1;
        },
        ast::ExprKind::Scan { source, init, acc_name, val_name, body } => {
            law_resolution_keeps_scopes(c, *source, st);
            let s0 = lowered(c, *source, st).1;
            law_resolution_keeps_scopes(c, *init, s0);
            let s1 = lowered(c, *init, s0).1;
            lemma_keeps(st, s0, s1);
            law_resolution_keeps_scopes(c, *body, s1);
            let s2 = lowered(c, *body, s1).1;
            lemma_keeps(st, s1, s2);
        },
        ast::ExprKind::Unfold { axis, init, prev_state_name, prev_index_name, index_name, body } => {
            law_resolution_keeps_scopes(c, *init, st);
            let s0 = lowered(c, *init, st).1;
            law_resolution_keeps_scopes(c, *body, s0);
            let s1 = lowered(c, *body, s0).1;
            lemma_keeps(st, s0, s1);
        },
        ast::ExprKind::KeyForm { kind, axis, arg } => {
            law_resolution_keeps_scopes(c, *arg, st);
            let s0 = lowered(c, *arg, st).1;
        },
        ast::ExprKind::FnCall { callee, generic_args, args } => lemma_exprs(c, args, args.len() as nat, st),
        ast::ExprKind::ConstructorCall { callee, generic_args, fields } => lemma_field_values(
            c,
            fields,
            fields.len() as nat,
            st,
        ),
        ast::ExprKind::MapLiteral { entries } => lemma_entries_exprs(c, entries, entries.len() as nat, st),
        ast::ExprKind::IndexAccess { expr, args } => {
            law_resolution_keeps_scopes(c, *expr, st);
            let a = lowered(c, *expr, st).1;
            lemma_arg_expr(c, *args.first, a);
            let b = lowered_arg_expr(c, *args.first, a).1;
            lemma_arg_exprs(c, args.rest, args.rest.len() as nat, b);
            lemma_keeps(st, a, b);
            lemma_keeps(st, b, lowered_arg_exprs(c, args.rest, args.rest.len() as nat, b).1);
        },
        ast::ExprKind::Match { scrutinee, arms } => {
            law_resolution_keeps_scopes(c, *scrutinee, st);
            let a = lowered(c, *scrutinee, st).1;
            lemma_arm_bodies(c, arms, arms.len() as nat, a);
            lemma_keeps(st, a, lowered_arm_bodies(c, arms, arms.len() as nat, a).1);
        },
        ast::ExprKind::InlineDagRef { path, args, output } => lemma_binding_values(
            c,
            args,
            args.len() as nat,
            st,
        ),
        _ => {},
    }
}

pub(crate) proof fn lemma_function_arg(c: Ctx, f: Fun, only: bool, arg: ast::Expr, st: St)
    ensures
        kept(st, function_arg(c, f, only, arg, st)),
    decreases arg, 3int,
{
    lemma_keeps(st, st, st);
    law_resolution_keeps_scopes(c, arg, st);
}

pub(crate) proof fn lemma_zoned_args(c: Ctx, v: Vec<ast::Expr>, st: St)
    ensures
        kept(st, zoned_args(c, v, st)),
    decreases v, 0nat,
{
    lemma_keeps(st, st, st);
    if v.len() == 2 {
        law_resolution_keeps_scopes(c, v[0], st);
        match zoned_datetime_arg(c, v[0], st) {
            Low::Done(_, middle) => {
                assert(keeps(st, middle));
                lemma_keeps(middle, middle, middle);
                law_resolution_keeps_scopes(c, v[1], middle);
                match zone_arg(c, v[1], middle) {
                    Low::Done(_, after) => {
                        assert(keeps(middle, after));
                        lemma_keeps(st, middle, after);
                    },
                    Low::Failed(_) => {},
                }
            },
            Low::Failed(_) => {},
        }
    }
}

pub(crate) proof fn lemma_function_args(c: Ctx, f: Fun, v: Vec<ast::Expr>, n: nat, st: St)
    ensures
        kept(st, function_args_upto(c, f, v, n, st)),
    decreases v, n,
{
    lemma_keeps(st, st, st);
    if 0 < n <= v.len() {
        lemma_function_args(c, f, v, (n - 1) as nat, st);
        match function_args_upto(c, f, v, (n - 1) as nat, st) {
            Low::Done(_, middle) => {
                lemma_function_arg(c, f, v.len() == 1, v[n - 1], middle);
                match function_arg(c, f, v.len() == 1, v[n - 1], middle) {
                    Low::Done(_, after) => lemma_keeps(st, middle, after),
                    Low::Failed(_) => {},
                }
            },
            Low::Failed(_) => {},
        }
    }
}

pub(crate) proof fn lemma_key(c: Ctx, key: ast::MapEntryKey, map_span: Span, st: St)
    ensures
        kept(st, lowered_key(c, key, map_span, st)),
    decreases key,
{
    lemma_keeps(st, st, st);
    match key {
        ast::MapEntryKey::Expression { axis, expr } => law_resolution_keeps_scopes(c, expr, st),
        _ => {},
    }
}

pub(crate) proof fn lemma_keys(c: Ctx, v: Vec<ast::MapEntryKey>, n: nat, map_span: Span, st: St)
    ensures
        kept(st, lowered_keys(c, v, n, map_span, st)),
    decreases v, n,
{
    lemma_keeps(st, st, st);
    if 0 < n <= v.len() {
        lemma_keys(c, v, (n - 1) as nat, map_span, st);
        match lowered_keys(c, v, (n - 1) as nat, map_span, st) {
            Low::Done(_, middle) => {
                lemma_key(c, v[n - 1], map_span, middle);
                match lowered_key(c, v[n - 1], map_span, middle) {
                    Low::Done(_, after) => lemma_keeps(st, middle, after),
                    Low::Failed(_) => {},
                }
            },
            Low::Failed(_) => {},
        }
    }
}

pub(crate) proof fn lemma_entry(c: Ctx, entry: ast::MapEntry, map_span: Span, st: St)
    ensures
        kept(st, lowered_entry(c, entry, map_span, st)),
    decreases entry,
{
    lemma_key(c, *entry.keys.first, map_span, st);
    match lowered_key(c, *entry.keys.first, map_span, st) {
        Low::Done(_, a) => {
            lemma_keys(c, entry.keys.rest, entry.keys.rest.len() as nat, map_span, a);
            match lowered_keys(c, entry.keys.rest, entry.keys.rest.len() as nat, map_span, a) {
                Low::Done(_, b) => {
                    law_resolution_keeps_scopes(c, entry.value, b);
                    lemma_keeps(st, a, b);
                    lemma_keeps(st, b, lowered(c, entry.value, b).1);
                },
                Low::Failed(_) => {},
            }
        },
        Low::Failed(_) => {},
    }
}

pub(crate) proof fn lemma_entries(c: Ctx, v: Vec<ast::MapEntry>, n: nat, map_span: Span, st: St)
    ensures
        kept(st, lowered_entries(c, v, n, map_span, st)),
    decreases v, n,
{
    lemma_keeps(st, st, st);
    if 0 < n <= v.len() {
        lemma_entries(c, v, (n - 1) as nat, map_span, st);
        match lowered_entries(c, v, (n - 1) as nat, map_span, st) {
            Low::Done(_, middle) => {
                lemma_entry(c, v[n - 1], map_span, middle);
                match lowered_entry(c, v[n - 1], map_span, middle) {
                    Low::Done(_, after) => lemma_keeps(st, middle, after),
                    Low::Failed(_) => {},
                }
            },
            Low::Failed(_) => {},
        }
    }
}

pub(crate) proof fn lemma_for_bindings(c: Ctx, v: Seq<ForBinding>, n: nat, st: St)
    ensures
        kept(st, for_bindings(c, v, n, st)),
    decreases n,
{
    lemma_keeps(st, st, st);
    if 0 < n <= v.len() {
        lemma_for_bindings(c, v, (n - 1) as nat, st);
        match for_bindings(c, v, (n - 1) as nat, st) {
            Low::Done(_, middle) => {
                reveal(for_binding);
                lemma_keeps(middle, middle, middle);
                match for_binding(c, v[n - 1], middle) {
                    Low::Done(_, after) => lemma_keeps(st, middle, after),
                    Low::Failed(_) => {},
                }
            },
            Low::Failed(_) => {},
        }
    }
}

pub(crate) proof fn lemma_pattern_bindings(v: Seq<PatternBinding>, n: nat, st: St)
    ensures
        kept(st, pattern_bindings(v, n, st)),
    decreases n,
{
    lemma_keeps(st, st, st);
    if 0 < n <= v.len() {
        lemma_pattern_bindings(v, (n - 1) as nat, st);
        match pattern_bindings(v, (n - 1) as nat, st) {
            Low::Done(_, middle) => {
                reveal(pattern_binding);
                lemma_keeps(middle, middle, middle);
                match pattern_binding(v[n - 1], middle) {
                    Low::Done(_, after) => lemma_keeps(st, middle, after),
                    Low::Failed(_) => {},
                }
            },
            Low::Failed(_) => {},
        }
    }
}

pub(crate) proof fn lemma_pattern(c: Ctx, pattern: MatchPattern, st: St)
    ensures
        kept(st, match_pattern(c, pattern, st)),
{
    reveal(match_pattern);
    reveal(path_pattern);
    reveal(constructor_pattern);
    lemma_keeps(st, st, st);
    match pattern {
        MatchPattern::Path { path, bindings, span } => lemma_pattern_bindings(bindings@, bindings@.len(), st),
        MatchPattern::Constructor { name, bindings, span } => lemma_pattern_bindings(bindings@, bindings@.len(), st),
        MatchPattern::IndexLabel { index, variant, span } => {},
    }
}

pub(crate) proof fn lemma_fold_locals(names: Seq<Spanned<LocalName>>, n: nat, st: St)
    ensures
        kept(st, fold_locals(names, n, st)),
    decreases n,
{
    lemma_keeps(st, st, st);
    if 0 < n <= names.len() {
        lemma_fold_locals(names, (n - 1) as nat, st);
        match fold_locals(names, (n - 1) as nat, st) {
            Low::Done(_, middle) => {
                lemma_keeps(middle, middle, middle);
                match fold_locals(names, n, st) {
                    Low::Done(_, after) => lemma_keeps(st, middle, after),
                    Low::Failed(_) => {},
                }
            },
            Low::Failed(_) => {},
        }
    }
}

pub(crate) proof fn lemma_in_scope(c: Ctx, e: ast::Expr, locals: Seq<Local>, st: St)
    ensures
        kept(st, lowered_in(c, e, locals, st)),
    decreases e, 3int,
{
    let inside = St { scopes: st.scopes.push(locals), ..st };
    law_resolution_keeps_scopes(c, e, inside);
    assert(inside.scopes.drop_last() =~= st.scopes);
}

pub(crate) proof fn lemma_index_arg(c: Ctx, arg: ast::IndexArg, st: St)
    ensures
        kept(st, index_arg(c, arg, st)),
    decreases arg,
{
    lemma_keeps(st, st, st);
    match arg {
        ast::IndexArg::Expr(e) => law_resolution_keeps_scopes(c, *e, st),
        _ => {},
    }
}

pub(crate) proof fn lemma_index_args(c: Ctx, v: Vec<ast::IndexArg>, n: nat, st: St)
    ensures
        kept(st, index_args(c, v, n, st)),
    decreases v, n,
{
    lemma_keeps(st, st, st);
    if 0 < n <= v.len() {
        lemma_index_args(c, v, (n - 1) as nat, st);
        match index_args(c, v, (n - 1) as nat, st) {
            Low::Done(_, middle) => {
                lemma_index_arg(c, v[n - 1], middle);
                match index_arg(c, v[n - 1], middle) {
                    Low::Done(_, after) => lemma_keeps(st, middle, after),
                    Low::Failed(_) => {},
                }
            },
            Low::Failed(_) => {},
        }
    }
}

pub(crate) proof fn lemma_arm(c: Ctx, arm: ast::MatchArm, st: St)
    ensures
        kept(st, lowered_arm(c, arm, st)),
    decreases arm,
{
    lemma_pattern(c, arm.pattern, st);
    match match_pattern(c, arm.pattern, st) {
        Low::Done((_, locals), middle) => {
            lemma_in_scope(c, arm.body, locals, middle);
            match lowered_in(c, arm.body, locals, middle) {
                Low::Done(_, after) => lemma_keeps(st, middle, after),
                Low::Failed(_) => {},
            }
        },
        Low::Failed(_) => {},
    }
}

pub(crate) proof fn lemma_arms(c: Ctx, v: Vec<ast::MatchArm>, n: nat, st: St)
    ensures
        kept(st, lowered_arms(c, v, n, st)),
    decreases v, n,
{
    lemma_keeps(st, st, st);
    if 0 < n <= v.len() {
        lemma_arms(c, v, (n - 1) as nat, st);
        match lowered_arms(c, v, (n - 1) as nat, st) {
            Low::Done(_, middle) => {
                lemma_arm(c, v[n - 1], middle);
                match lowered_arm(c, v[n - 1], middle) {
                    Low::Done(_, after) => lemma_keeps(st, middle, after),
                    Low::Failed(_) => {},
                }
            },
            Low::Failed(_) => {},
        }
    }
}

pub(crate) proof fn lemma_param_binding(c: Ctx, target: Seq<Seq<char>>, binding: ast::ParamBinding, st: St)
    ensures
        kept(st, param_binding(c, target, binding, st)),
    decreases binding,
{
    lemma_keeps(st, st, st);
    law_resolution_keeps_scopes(c, binding.value, st);
}

pub(crate) proof fn lemma_param_bindings(c: Ctx, target: Seq<Seq<char>>, v: Vec<ast::ParamBinding>, n: nat, st: St)
    ensures
        kept(st, param_bindings(c, target, v, n, st)),
    decreases v, n,
{
    lemma_keeps(st, st, st);
    if 0 < n <= v.len() {
        lemma_param_bindings(c, target, v, (n - 1) as nat, st);
        match param_bindings(c, target, v, (n - 1) as nat, st) {
            Low::Done(_, middle) => {
                lemma_param_binding(c, target, v[n - 1], middle);
                match param_binding(c, target, v[n - 1], middle) {
                    Low::Done(_, after) => lemma_keeps(st, middle, after),
                    Low::Failed(_) => {},
                }
            },
            Low::Failed(_) => {},
        }
    }
}

pub(crate) proof fn lemma_kind(c: Ctx, e: ast::Expr, st: St)
    ensures
        kept(st, lowered_kind(c, e, st)),
    decreases e, 1int,
{
    lemma_keeps(st, st, st);
    match e.kind {
        ast::ExprKind::BinOp { op, lhs, rhs } => {
            law_resolution_keeps_scopes(c, *lhs, st);
            let s0 = lowered(c, *lhs, st).1;
            law_resolution_keeps_scopes(c, *rhs, s0);
            let s1 = lowered(c, *rhs, s0).1;
            lemma_keeps(st, s0, s1);
        },
        ast::ExprKind::UnaryOp { op, operand } => {
            law_resolution_keeps_scopes(c, *operand, st);
            let s0 = lowered(c, *operand, st).1;
        },
        ast::ExprKind::If { condition, then_branch, else_branch } => {
            law_resolution_keeps_scopes(c, *condition, st);
            let s0 = lowered(c, *condition, st).1;
            law_resolution_keeps_scopes(c, *then_branch, s0);
            let s1 = lowered(c, *then_branch, s0).1;
            lemma_keeps(st, s0, s1);
            law_resolution_keeps_scopes(c, *else_branch, s1);
            let s2 = lowered(c, *else_branch, s1).1;
            lemma_keeps(st, s1, s2);
        },
        ast::ExprKind::Convert { expr, target } => {
            law_resolution_keeps_scopes(c, *expr, st);
            let s0 = lowered(c, *expr, st).1;
        },
        ast::ExprKind::DisplayTimezone { expr, timezone } => {
            law_resolution_keeps_scopes(c, *expr, st);
            let s0 = lowered(c, *expr, st).1;
        },
        ast::ExprKind::FieldAccess { expr, field } => {
            law_resolution_keeps_scopes(c, *expr, st);
            let s0 = lowered(c, *expr, st).1;
        },
        ast::ExprKind::KeyForm { kind, axis, arg } => {
            law_resolution_keeps_scopes(c, *arg, st);
            let s0 = lowered(c, *arg, st).1;
        },
        ast::ExprKind::FnCall { callee, generic_args, args } => lemma_call(c, callee, generic_args, args, st),
        ast::ExprKind::ConstructorCall { callee, generic_args, fields } => lemma_constructor(
            c,
            callee,
            generic_args,
            fields,
            e.span,
            st,
        ),
        ast::ExprKind::MapLiteral { entries } => lemma_entries(c, entries, entries.len() as nat, e.span, st),
        ast::ExprKind::InlineDagRef { path, args, output } => lemma_dag_call(c, path, args, output, st),
        ast::ExprKind::IndexAccess { expr, args } => {
            law_resolution_keeps_scopes(c, *expr, st);
            let a = lowered(c, *expr, st).1;
            lemma_index_arg(c, *args.first, a);
            match index_arg(c, *args.first, a) {
                Low::Done(_, b) => {
                    lemma_index_args(c, args.rest, args.rest.len() as nat, b);
                    lemma_keeps(st, a, b);
                    match index_args(c, args.rest, args.rest.len() as nat, b) {
                        Low::Done(_, after) => lemma_keeps(st, b, after),
                        Low::Failed(_) => {},
                    }
                },
                Low::Failed(_) => {},
            }
        },
        ast::ExprKind::Match { scrutinee, arms } => lemma_binding_form(c, e, st),
        ast::ExprKind::ForComp { bindings, body } => lemma_binding_form(c, e, st),
        ast::ExprKind::Scan { source, init, acc_name, val_name, body } => lemma_binding_form(c, e, st),
        ast::ExprKind::Unfold {
            axis,
            init,
            prev_state_name,
            prev_index_name,
            index_name,
            body,
        } => lemma_binding_form(
            c,
            e,
            st,
        ),
        _ => {},
    }
}

pub(crate) proof fn lemma_binding_form(c: Ctx, e: ast::Expr, st: St)
    requires
        e.kind is ForComp || e.kind is Scan || e.kind is Unfold || e.kind is Match,
    ensures
        kept(st, lowered_kind(c, e, st)),
    decreases e, 0int,
{
    lemma_keeps(st, st, st);
    match e.kind {
        ast::ExprKind::Match { scrutinee, arms } => {
            law_resolution_keeps_scopes(c, *scrutinee, st);
            let a = lowered(c, *scrutinee, st).1;
            lemma_arms(c, arms, arms.len() as nat, a);
            match lowered_arms(c, arms, arms.len() as nat, a) {
                Low::Done(_, after) => lemma_keeps(st, a, after),
                Low::Failed(_) => {},
            }
        },
        ast::ExprKind::ForComp { bindings, body } => {
            lemma_for_bindings(c, bindings@, bindings@.len(), st);
            match for_bindings(c, bindings@, bindings@.len(), st) {
                Low::Done((_, locals), middle) => {
                    lemma_in_scope(c, *body, locals, middle);
                    match lowered_in(c, *body, locals, middle) {
                        Low::Done(_, after) => lemma_keeps(st, middle, after),
                        Low::Failed(_) => {},
                    }
                },
                Low::Failed(_) => {},
            }
        },
        ast::ExprKind::Scan { source, init, acc_name, val_name, body } => {
            law_resolution_keeps_scopes(c, *source, st);
            let a = lowered(c, *source, st).1;
            law_resolution_keeps_scopes(c, *init, a);
            let b = lowered(c, *init, a).1;
            lemma_keeps(st, a, b);
            lemma_fold_body(c, seq![acc_name, val_name], 2, *body, b);
            match fold_locals(seq![acc_name, val_name], 2, b) {
                Low::Done(locals, middle) => match lowered_in(c, *body, locals, middle) {
                    Low::Done(_, after) => lemma_keeps(st, b, after),
                    Low::Failed(_) => {},
                },
                Low::Failed(_) => {},
            }
        },
        ast::ExprKind::Unfold { axis, init, prev_state_name, prev_index_name, index_name, body } => {
            law_resolution_keeps_scopes(c, *init, st);
            let a = lowered(c, *init, st).1;
            let names = seq![prev_state_name, prev_index_name, index_name];
            lemma_fold_body(c, names, 3, *body, a);
            match fold_locals(names, 3, a) {
                Low::Done(locals, middle) => match lowered_in(c, *body, locals, middle) {
                    Low::Done(_, after) => lemma_keeps(st, a, after),
                    Low::Failed(_) => {},
                },
                Low::Failed(_) => {},
            }
        },
        _ => {},
    }
}

pub(crate) proof fn lemma_call(c: Ctx, callee: IdentPath, generics: Vec<ast::GenericArg>, args: Vec<ast::Expr>, st: St)
    ensures
        kept(st, lowered_call(c, callee, generics, args, st)),
    decreases args, args.len() + 2,
{
    let span = ident_path_span(callee);
    match function_ref(c, callee) {
        Ok(named) => match function_application(named, generics@, dotted_path(idents_of(callee)), span) {
            Ok(f) => lemma_all_args(c, f, args, st),
            Err(_) => {},
        },
        Err(_) => {},
    }
}

pub(crate) proof fn lemma_all_args(c: Ctx, f: Fun, v: Vec<ast::Expr>, st: St)
    ensures
        kept(st, function_args(c, f, v, st)),
    decreases v, v.len() + 1,
{
    lemma_zoned_args(c, v, st);
    lemma_function_args(c, f, v, v.len() as nat, st);
}

pub(crate) proof fn lemma_constructor(
    c: Ctx,
    callee: IdentPath,
    generics: Vec<ast::GenericArg>,
    fields: Vec<ast::FieldInit>,
    span: Span,
    st: St,
)
    ensures
        kept(st, lowered_constructor(c, callee, generics, fields, span, st)),
    decreases fields, fields.len() + 1,
{
    lemma_fields(c, fields, fields.len() as nat, st);
}

pub(crate) proof fn lemma_dag_call(
    c: Ctx,
    path: ModulePath,
    args: Vec<ast::ParamBinding>,
    output: Spanned<DeclName>,
    st: St,
)
    ensures
        kept(st, dag_call(c, path, args, output, st)),
    decreases args, args.len() + 1,
{
    match module_resolution(c.modules, c.owner, segment_names(path.segments)) {
        Ok(target) => lemma_param_bindings(c, target, args, args.len() as nat, st),
        Err(_) => {},
    }
}

pub(crate) proof fn lemma_fold_body(c: Ctx, names: Seq<Spanned<LocalName>>, n: nat, body: ast::Expr, st: St)
    ensures
        match fold_locals(names, n, st) {
            Low::Done(locals, middle) => kept(st, lowered_in(c, body, locals, middle)),
            Low::Failed(_) => true,
        },
    decreases body, 4int,
{
    lemma_fold_locals(names, n, st);
    match fold_locals(names, n, st) {
        Low::Done(locals, middle) => {
            lemma_in_scope(c, body, locals, middle);
            match lowered_in(c, body, locals, middle) {
                Low::Done(_, after) => lemma_keeps(st, middle, after),
                Low::Failed(_) => {},
            }
        },
        Low::Failed(_) => {},
    }
}

/// The kind of a resolved expression.
pub open spec fn kind_of(t: Term) -> Term {
    match t {
        Term::Node(_, parts) => match *parts {
            Term::Pair(kind, _) => *kind,
            _ => Term::Absent,
        },
        _ => Term::Absent,
    }
}

pub(crate) proof fn lemma_no_error_node(c: Ctx, e: ast::Expr, st: St)
    ensures
        match lowered_kind(c, e, st) {
            Low::Done(kind, _) => !has_tag(kind, Tag::HirExprError),
            Low::Failed(_) => true,
        },
{
    match e.kind {
        ast::ExprKind::UnresolvedRef(UnresolvedRef::Path(path)) => {
            reveal(unresolved_ref);
            reveal(dotted_ref);
            reveal(module_ref);
        },
        ast::ExprKind::FieldAccess { expr, field } => {
            reveal(alias_field);
        },
        ast::ExprKind::FnCall { callee, generic_args, args } => {
            let call = lowered_call(c, callee, generic_args, args, st);
            assert(call is Done ==> has_tag(call->Done_0, Tag::HirExprFnCall));
        },
        ast::ExprKind::ConstructorCall { callee, generic_args, fields } => {
            let call = lowered_constructor(c, callee, generic_args, fields, e.span, st);
            assert(call is Done ==> has_tag(call->Done_0, Tag::HirExprConstructorCall));
        },
        ast::ExprKind::InlineDagRef { path, args, output } => {
            let call = dag_call(c, path, args, output, st);
            assert(call is Done ==> has_tag(call->Done_0, Tag::HirExprDagCall));
        },
        _ => {},
    }
}

/// An expression keeps its place. It becomes an error node exactly where it does
/// not resolve itself. What was recorded while trying it is then forgotten, so
/// that its own error is the first after those that were there already, which
/// stay as they are; the scopes stay as they are too.
pub proof fn law_a_failed_expression_is_one_error_node(c: Ctx, e: ast::Expr, st: St)
    ensures
        ({
            let (t, after) = lowered(c, e, st);
            &&& t == hir_expr(kind_of(t), e.span)
            &&& keeps(st, after)
            &&& st.errors.is_prefix_of(after.errors)
            &&& has_tag(kind_of(t), Tag::HirExprError) == (lowered_kind(c, e, st) is Failed)
            &&& match lowered_kind(c, e, st) {
                Low::Done(kind, inner) => kind_of(t) == kind && after == inner,
                Low::Failed(error) => after.errors.len() > st.errors.len() && after.errors[st.errors.len() as int]
                    == error,
            }
        }),
{
    let (t, after) = lowered(c, e, st);
    law_resolution_keeps_scopes(c, e, st);
    lemma_no_error_node(c, e, st);
    assert(st.errors.is_prefix_of(after.errors)) by {
        assert(after.errors.take(st.errors.len() as int) == st.errors);
        assert(st.errors =~= after.errors.subrange(0, st.errors.len() as int));
    }
    match lowered_kind(c, e, st) {
        Low::Done(_, _) => {},
        Low::Failed(error) => {
            let failed = St { errors: st.errors.push(error), ..st };
            lemma_error_children(c, e, failed);
            assert(after.errors.take(failed.errors.len() as int)[st.errors.len() as int] == error);
        },
    }
}

/// A local hides everything else of its name.
pub proof fn law_locals_come_first(c: Ctx, st: St, name: Seq<char>, span: Span)
    requires
        local_of_name(st.scopes, name) is Some,
    ensures
        bare_ref(c, st, name, span) == Ok::<Term, Term>(
            node1(
                Tag::HirExprLocalRef,
                pair(node1(Tag::HirLocalId, Term::Int(local_of_name(st.scopes, name)->0)), Term::At(span)),
            ),
        ),
{
}

/// A qualified name only reaches what the module behind the alias makes public.
pub proof fn law_qualified_names_are_public(
    modules: Seq<ModuleSymbols>,
    namespace: Namespace,
    owner: Seq<Seq<char>>,
    path: Seq<Seq<char>>,
)
    requires
        path.len() > 1,
        resolution(modules, namespace, owner, path) is Ok,
    ensures
        ({
            let target = resolution(modules, namespace, owner, path)->Ok_0;
            let m = module_at(modules, target.owner, 0);
            &&& m is Some
            &&& symbol_at(modules[m->0].symbols@, namespace, target.name, 0) is Some
            &&& modules[m->0].symbols@[symbol_at(modules[m->0].symbols@, namespace, target.name, 0)->0].is_pub
        }),
{
    reveal(resolution);
}

/// What a module declares itself hides what it imports under the same name.
pub proof fn law_declarations_come_before_imports(
    modules: Seq<ModuleSymbols>,
    namespace: Namespace,
    owner: Seq<Seq<char>>,
    name: Seq<char>,
)
    requires
        module_at(modules, owner, 0) is Some,
        symbol_at(modules[module_at(modules, owner, 0)->0].symbols@, namespace, name, 0) is Some,
    ensures
        resolution(modules, namespace, owner, seq![name]) == Ok::<Target, Term>(Target { owner, name }),
{
    reveal(resolution);
    assert(seq![name].last() == name);
}

} // verus!
