//! Each local that a resolved expression brings into scope has a number of its
//! own.

use crate::desugar::desugared_ast as ast;
use crate::hir::context::Ctx;
use crate::hir::lower::lowered_alone;
use crate::hir::lowering::{
    alias_field, allocated, constructor_of, constructor_pattern, dag_call, discrete_key, dotted_ref, error_children,
    fold_locals, for_binding, for_bindings, for_index, function_application, function_arg, function_args,
    function_args_upto, function_ref, hir_expr, ident_path_span, index_arg, index_args, index_expr_span, key_axis,
    lowered, lowered_arg_expr, lowered_arg_exprs, lowered_arm, lowered_arm_bodies, lowered_arms,
    lowered_binding_values, lowered_call, lowered_constructor, lowered_entries, lowered_entries_exprs, lowered_entry,
    lowered_entry_exprs, lowered_exprs, lowered_field_values, lowered_fields, lowered_in, lowered_key,
    lowered_key_expr, lowered_key_exprs, lowered_keys, lowered_kind, match_pattern, module_ref, param_binding,
    param_bindings, path_pattern, pattern_binding, pattern_bindings, segment_names, spanned_index, unresolved_ref,
    zone_arg, zoned_args, zoned_datetime_arg, zoned_literal, Fun, Local, Low, St,
};
use crate::hir::resolve::{dotted_path, idents_of, module_resolution};
use crate::syntax::ast::{ForBinding, IdentPath, MatchPattern, ModulePath, PatternBinding, UnresolvedRef};
use crate::syntax::names::{DeclName, LocalName};
use crate::syntax::span::{Span, Spanned};
use crate::syntax::term::{node1, node2, node3, pair, prepend, Spans, Symbol, Syntax, Tag, Term};
use vstd::prelude::*;

verus! {

/// Whether expressions and locals stand in all parts of a node of this kind.
pub open spec fn in_all_parts(tag: Tag) -> bool {
    ||| tag == Tag::HirExpr
    ||| tag == Tag::HirExprError
    ||| tag == Tag::HirExprIf
    ||| tag == Tag::HirExprMapLiteral
    ||| tag == Tag::HirExprForComp
    ||| tag == Tag::HirExprIndexAccess
    ||| tag == Tag::HirExprScan
    ||| tag == Tag::HirExprUnfold
    ||| tag == Tag::HirExprMatch
    ||| tag == Tag::HirMapEntry
    ||| tag == Tag::HirIndexArgExpr
    ||| tag == Tag::HirMatchArm
    ||| tag == Tag::HirAssertBodyExpr
    ||| tag == Tag::HirAssertBodyTolerance
}

/// Whether expressions and locals stand only in the first part of a node of this
/// kind.
pub open spec fn in_first_part(tag: Tag) -> bool {
    ||| tag == Tag::HirExprConvert
    ||| tag == Tag::HirExprDisplayTimezone
    ||| tag == Tag::HirExprFieldAccess
    ||| tag == Tag::HirForBinding
}

/// Whether expressions and locals stand only after the first part of a node of
/// this kind.
pub open spec fn after_first_part(tag: Tag) -> bool {
    ||| tag == Tag::HirExprBinOp
    ||| tag == Tag::HirExprUnaryOp
    ||| tag == Tag::HirExprFnCall
    ||| tag == Tag::HirFieldInit
    ||| tag == Tag::HirParamBinding
    ||| tag == Tag::HirMapEntryKeyExpression
    ||| tag == Tag::HirPatternBindingBind
    ||| tag == Tag::HirMatchPatternConstructor
    ||| tag == Tag::HirUnfoldRecurrence
}

/// Whether expressions and locals stand only after the second part of a node of
/// this kind.
pub open spec fn after_second_part(tag: Tag) -> bool {
    tag == Tag::HirExprConstructorCall || tag == Tag::HirExprKeyForm
}

/// The numbers of the locals that a resolved tree brings into scope.
pub open spec fn ids(t: Term) -> Seq<int>
    decreases t,
{
    match t {
        Term::List(items) => list_ids(items),
        Term::Pair(a, b) => ids(*a) + ids(*b),
        Term::Node(tag, parts) => if tag == Tag::HirLocalDef {
            own_id(*parts)
        } else if in_all_parts(tag) {
            ids(*parts)
        } else {
            match *parts {
                Term::Pair(a, b) => if in_first_part(tag) {
                    ids(*a)
                } else if after_first_part(tag) {
                    ids(*b)
                } else {
                    match *b {
                        Term::Pair(second, rest) => if after_second_part(tag) {
                            ids(*rest)
                        } else if tag == Tag::HirExprDagCall {
                            ids(*second)
                        } else {
                            Seq::empty()
                        },
                        _ => Seq::empty(),
                    }
                },
                _ => Seq::empty(),
            }
        },
        _ => Seq::empty(),
    }
}

pub open spec fn list_ids(items: Seq<Term>) -> Seq<int>
    decreases items,
{
    if items.len() == 0 {
        Seq::empty()
    } else {
        list_ids(items.drop_last()) + ids(items.last())
    }
}

/// The number in the definition of a local.
pub open spec fn own_id(parts: Term) -> Seq<int> {
    match parts {
        Term::Pair(id, _) => match *id {
            Term::Node(_, number) => match *number {
                Term::Int(n) => seq![n],
                _ => Seq::empty(),
            },
            _ => Seq::empty(),
        },
        _ => Seq::empty(),
    }
}

/// Whether numbers are distinct and were counted from `low` up to `high`.
pub open spec fn fresh(numbers: Seq<int>, low: int, high: int) -> bool {
    &&& low <= high
    &&& numbers.no_duplicates()
    &&& forall|i: int| 0 <= i < numbers.len() ==> low <= #[trigger] numbers[i] < high
}

/// Whether a part that resolved brings fresh locals into scope.
pub open spec fn numbered(before: St, r: Low<Term>) -> bool {
    match r {
        Low::Done(t, after) => fresh(ids(t), before.next, after.next),
        Low::Failed(_) => true,
    }
}

/// Whether parts that resolved bring fresh locals into scope.
pub open spec fn all_numbered(before: St, r: Low<Seq<Term>>) -> bool {
    match r {
        Low::Done(items, after) => fresh(list_ids(items), before.next, after.next),
        Low::Failed(_) => true,
    }
}

proof fn lemma_none(n: int)
    ensures
        fresh(Seq::empty(), n, n),
{
}

proof fn lemma_join(a: Seq<int>, b: Seq<int>, low: int, middle: int, high: int)
    requires
        fresh(a, low, middle),
        fresh(b, middle, high),
    ensures
        fresh(a + b, low, high),
        fresh(b + a, low, high),
{
    assert forall|i: int, j: int| 0 <= i < (a + b).len() && 0 <= j < (a + b).len() && i != j implies (a + b)[i] != (a
        + b)[j] by {
        if i < a.len() && j >= a.len() {
            assert(a[i] < middle <= b[j - a.len()]);
        }
        if j < a.len() && i >= a.len() {
            assert(a[j] < middle <= b[i - a.len()]);
        }
    }
    assert forall|i: int, j: int| 0 <= i < (b + a).len() && 0 <= j < (b + a).len() && i != j implies (b + a)[i] != (b
        + a)[j] by {
        if i < b.len() && j >= b.len() {
            assert(a[j - b.len()] < middle <= b[i]);
        }
        if j < b.len() && i >= b.len() {
            assert(a[i - b.len()] < middle <= b[j]);
        }
    }
}

proof fn lemma_push(items: Seq<Term>, item: Term)
    ensures
        list_ids(items.push(item)) == list_ids(items) + ids(item),
{
    assert(items.push(item).drop_last() =~= items);
}

proof fn lemma_concat(a: Seq<Term>, b: Seq<Term>)
    ensures
        list_ids(a + b) == list_ids(a) + list_ids(b),
    decreases b.len(),
{
    if b.len() == 0 {
        assert(a + b =~= a);
        assert(list_ids(a) + list_ids(b) =~= list_ids(a));
    } else {
        lemma_concat(a, b.drop_last());
        assert((a + b).drop_last() =~= a + b.drop_last());
        assert(list_ids(a + b) =~= list_ids(a) + list_ids(b));
    }
}

proof fn lemma_single(item: Term)
    ensures
        list_ids(seq![item]) == ids(item),
{
    lemma_push(Seq::empty(), item);
    assert(Seq::empty().push(item) =~= seq![item]);
    assert(list_ids(Seq::empty()) + ids(item) =~= ids(item));
}

proof fn lemma_two(a: Term, b: Term)
    ensures
        list_ids(seq![a, b]) == ids(a) + ids(b),
{
    lemma_single(a);
    lemma_push(seq![a], b);
    assert(seq![a].push(b) =~= seq![a, b]);
}

proof fn lemma_three(a: Term, b: Term, c: Term)
    ensures
        list_ids(seq![a, b, c]) == ids(a) + ids(b) + ids(c),
{
    lemma_two(a, b);
    lemma_push(seq![a, b], c);
    assert(seq![a, b].push(c) =~= seq![a, b, c]);
}

proof fn lemma_expr(kind: Term, span: Span)
    ensures
        ids(hir_expr(kind, span)) == ids(kind),
{
    reveal_with_fuel(ids, 3);
    assert(ids(hir_expr(kind, span)) =~= ids(kind));
}

proof fn lemma_leaf(kind: Term, span: Span)
    requires
        ids(kind) == Seq::<int>::empty(),
    ensures
        ids(hir_expr(kind, span)) == Seq::<int>::empty(),
{
    lemma_expr(kind, span);
}

proof fn lemma_node1(tag: Tag, a: Term)
    requires
        in_all_parts(tag),
    ensures
        ids(node1(tag, a)) == ids(a),
{
    reveal_with_fuel(ids, 2);
}

proof fn lemma_node2(tag: Tag, a: Term, b: Term)
    requires
        tag != Tag::HirLocalDef,
    ensures
        in_all_parts(tag) ==> ids(node2(tag, a, b)) == ids(a) + ids(b),
        in_first_part(tag) ==> ids(node2(tag, a, b)) == ids(a),
        after_first_part(tag) ==> ids(node2(tag, a, b)) == ids(b),
{
    reveal_with_fuel(ids, 3);
}

proof fn lemma_node3(tag: Tag, a: Term, b: Term, c: Term)
    requires
        tag != Tag::HirLocalDef,
    ensures
        in_all_parts(tag) ==> ids(node3(tag, a, b, c)) == ids(a) + (ids(b) + ids(c)),
        after_first_part(tag) ==> ids(node3(tag, a, b, c)) == ids(b) + ids(c),
        after_second_part(tag) ==> ids(node3(tag, a, b, c)) == ids(c),
        tag == Tag::HirExprDagCall ==> ids(node3(tag, a, b, c)) == ids(b),
{
    reveal_with_fuel(ids, 4);
}

proof fn lemma_local(local: Local)
    ensures
        ids(local.to_term()) == seq![local.id],
{
}

proof fn lemma_lowered(c: Ctx, e: ast::Expr, st: St)
    ensures
        fresh(ids(lowered(c, e, st).0), st.next, lowered(c, e, st).1.next),
    decreases e, 2int,
{
    lemma_kind(c, e, st);
    match lowered_kind(c, e, st) {
        Low::Done(kind, _) => lemma_expr(kind, e.span),
        Low::Failed(error) => {
            let failed = St { errors: st.errors.push(error), ..st };
            let children = error_children(c, e, failed).0;
            lemma_error_children(c, e, failed);
            lemma_expr(node1(Tag::HirExprError, Term::List(children)), e.span);
            lemma_node1(Tag::HirExprError, Term::List(children));
        },
    }
}

proof fn lemma_exprs(c: Ctx, v: Vec<ast::Expr>, n: nat, st: St)
    ensures
        fresh(list_ids(lowered_exprs(c, v, n, st).0), st.next, lowered_exprs(c, v, n, st).1.next),
    decreases v, n,
{
    lemma_none(st.next);
    if 0 < n <= v.len() {
        let (before, middle) = lowered_exprs(c, v, (n - 1) as nat, st);
        let (item, after) = lowered(c, v[n - 1], middle);
        lemma_exprs(c, v, (n - 1) as nat, st);
        lemma_lowered(c, v[n - 1], middle);
        lemma_push(before, item);
        lemma_join(list_ids(before), ids(item), st.next, middle.next, after.next);
    }
}

proof fn lemma_field_values(c: Ctx, v: Vec<ast::FieldInit>, n: nat, st: St)
    ensures
        fresh(list_ids(lowered_field_values(c, v, n, st).0), st.next, lowered_field_values(c, v, n, st).1.next),
    decreases v, n,
{
    lemma_none(st.next);
    if 0 < n <= v.len() {
        let (before, middle) = lowered_field_values(c, v, (n - 1) as nat, st);
        let (item, after) = lowered(c, v[n - 1].value, middle);
        lemma_field_values(c, v, (n - 1) as nat, st);
        lemma_lowered(c, v[n - 1].value, middle);
        lemma_push(before, item);
        lemma_join(list_ids(before), ids(item), st.next, middle.next, after.next);
    }
}

proof fn lemma_arm_bodies(c: Ctx, v: Vec<ast::MatchArm>, n: nat, st: St)
    ensures
        fresh(list_ids(lowered_arm_bodies(c, v, n, st).0), st.next, lowered_arm_bodies(c, v, n, st).1.next),
    decreases v, n,
{
    lemma_none(st.next);
    if 0 < n <= v.len() {
        let (before, middle) = lowered_arm_bodies(c, v, (n - 1) as nat, st);
        let (item, after) = lowered(c, v[n - 1].body, middle);
        lemma_arm_bodies(c, v, (n - 1) as nat, st);
        lemma_lowered(c, v[n - 1].body, middle);
        lemma_push(before, item);
        lemma_join(list_ids(before), ids(item), st.next, middle.next, after.next);
    }
}

proof fn lemma_binding_values(c: Ctx, v: Vec<ast::ParamBinding>, n: nat, st: St)
    ensures
        fresh(list_ids(lowered_binding_values(c, v, n, st).0), st.next, lowered_binding_values(c, v, n, st).1.next),
    decreases v, n,
{
    lemma_none(st.next);
    if 0 < n <= v.len() {
        let (before, middle) = lowered_binding_values(c, v, (n - 1) as nat, st);
        let (item, after) = lowered(c, v[n - 1].value, middle);
        lemma_binding_values(c, v, (n - 1) as nat, st);
        lemma_lowered(c, v[n - 1].value, middle);
        lemma_push(before, item);
        lemma_join(list_ids(before), ids(item), st.next, middle.next, after.next);
    }
}

proof fn lemma_fields(c: Ctx, v: Vec<ast::FieldInit>, n: nat, st: St)
    ensures
        fresh(list_ids(lowered_fields(c, v, n, st).0), st.next, lowered_fields(c, v, n, st).1.next),
    decreases v, n,
{
    lemma_none(st.next);
    if 0 < n <= v.len() {
        let (before, middle) = lowered_fields(c, v, (n - 1) as nat, st);
        let (item, after) = lowered(c, v[n - 1].value, middle);
        lemma_fields(c, v, (n - 1) as nat, st);
        lemma_lowered(c, v[n - 1].value, middle);
        let node = node2(Tag::HirFieldInit, v[n - 1].name.term(Spans::Kept), item);
        lemma_node2(Tag::HirFieldInit, v[n - 1].name.term(Spans::Kept), item);
        lemma_push(before, node);
        lemma_join(list_ids(before), ids(item), st.next, middle.next, after.next);
    }
}

proof fn lemma_arg_exprs(c: Ctx, v: Vec<ast::IndexArg>, n: nat, st: St)
    ensures
        fresh(list_ids(lowered_arg_exprs(c, v, n, st).0), st.next, lowered_arg_exprs(c, v, n, st).1.next),
    decreases v, n,
{
    lemma_none(st.next);
    if 0 < n <= v.len() {
        let (before, middle) = lowered_arg_exprs(c, v, (n - 1) as nat, st);
        let (item, after) = lowered_arg_expr(c, v[n - 1], middle);
        lemma_arg_exprs(c, v, (n - 1) as nat, st);
        lemma_arg_expr(c, v[n - 1], middle);
        lemma_concat(before, item);
        lemma_join(list_ids(before), list_ids(item), st.next, middle.next, after.next);
    }
}

proof fn lemma_key_exprs(c: Ctx, v: Vec<ast::MapEntryKey>, n: nat, st: St)
    ensures
        fresh(list_ids(lowered_key_exprs(c, v, n, st).0), st.next, lowered_key_exprs(c, v, n, st).1.next),
    decreases v, n,
{
    lemma_none(st.next);
    if 0 < n <= v.len() {
        let (before, middle) = lowered_key_exprs(c, v, (n - 1) as nat, st);
        let (item, after) = lowered_key_expr(c, v[n - 1], middle);
        lemma_key_exprs(c, v, (n - 1) as nat, st);
        lemma_key_expr(c, v[n - 1], middle);
        lemma_concat(before, item);
        lemma_join(list_ids(before), list_ids(item), st.next, middle.next, after.next);
    }
}

proof fn lemma_entries_exprs(c: Ctx, v: Vec<ast::MapEntry>, n: nat, st: St)
    ensures
        fresh(list_ids(lowered_entries_exprs(c, v, n, st).0), st.next, lowered_entries_exprs(c, v, n, st).1.next),
    decreases v, n,
{
    lemma_none(st.next);
    if 0 < n <= v.len() {
        let (before, middle) = lowered_entries_exprs(c, v, (n - 1) as nat, st);
        let (item, after) = lowered_entry_exprs(c, v[n - 1], middle);
        lemma_entries_exprs(c, v, (n - 1) as nat, st);
        lemma_entry_exprs(c, v[n - 1], middle);
        lemma_concat(before, item);
        lemma_join(list_ids(before), list_ids(item), st.next, middle.next, after.next);
    }
}

proof fn lemma_arg_expr(c: Ctx, arg: ast::IndexArg, st: St)
    ensures
        fresh(list_ids(lowered_arg_expr(c, arg, st).0), st.next, lowered_arg_expr(c, arg, st).1.next),
    decreases arg,
{
    lemma_none(st.next);
    match arg {
        ast::IndexArg::Expr(e) => {
            lemma_lowered(c, *e, st);
            lemma_single(lowered(c, *e, st).0);
        },
        _ => {},
    }
}

proof fn lemma_key_expr(c: Ctx, key: ast::MapEntryKey, st: St)
    ensures
        fresh(list_ids(lowered_key_expr(c, key, st).0), st.next, lowered_key_expr(c, key, st).1.next),
    decreases key,
{
    lemma_none(st.next);
    match key {
        ast::MapEntryKey::Expression { axis, expr } => {
            lemma_lowered(c, expr, st);
            lemma_single(lowered(c, expr, st).0);
        },
        _ => {},
    }
}

proof fn lemma_entry_exprs(c: Ctx, entry: ast::MapEntry, st: St)
    ensures
        fresh(list_ids(lowered_entry_exprs(c, entry, st).0), st.next, lowered_entry_exprs(c, entry, st).1.next),
    decreases entry,
{
    let (first, a) = lowered_key_expr(c, *entry.keys.first, st);
    let (rest, b) = lowered_key_exprs(c, entry.keys.rest, entry.keys.rest.len() as nat, a);
    let (value, after) = lowered(c, entry.value, b);
    lemma_key_expr(c, *entry.keys.first, st);
    lemma_key_exprs(c, entry.keys.rest, entry.keys.rest.len() as nat, a);
    lemma_lowered(c, entry.value, b);
    lemma_concat(first, rest);
    lemma_concat(first + rest, seq![value]);
    lemma_single(value);
    lemma_join(list_ids(first), list_ids(rest), st.next, a.next, b.next);
    lemma_join(list_ids(first + rest), ids(value), st.next, b.next, after.next);
}

proof fn lemma_error_children(c: Ctx, e: ast::Expr, st: St)
    ensures
        fresh(list_ids(error_children(c, e, st).0), st.next, error_children(c, e, st).1.next),
    decreases e, 1int,
{
    lemma_none(st.next);
    match e.kind {
        ast::ExprKind::BinOp { op, lhs, rhs } => {
            let (x, a) = lowered(c, *lhs, st);
            let (y, b) = lowered(c, *rhs, a);
            lemma_lowered(c, *lhs, st);
            lemma_lowered(c, *rhs, a);
            lemma_join(ids(x), ids(y), st.next, a.next, b.next);
            lemma_two(x, y);
        },
        ast::ExprKind::UnaryOp { op, operand } => {
            lemma_lowered(c, *operand, st);
            lemma_single(lowered(c, *operand, st).0);
        },
        ast::ExprKind::If { condition, then_branch, else_branch } => {
            let (x, a) = lowered(c, *condition, st);
            let (y, b) = lowered(c, *then_branch, a);
            let (z, d) = lowered(c, *else_branch, b);
            lemma_lowered(c, *condition, st);
            lemma_lowered(c, *then_branch, a);
            lemma_lowered(c, *else_branch, b);
            lemma_join(ids(x), ids(y), st.next, a.next, b.next);
            lemma_join(ids(x) + ids(y), ids(z), st.next, b.next, d.next);
            lemma_three(x, y, z);
        },
        ast::ExprKind::Convert { expr, target } => {
            lemma_lowered(c, *expr, st);
            lemma_single(lowered(c, *expr, st).0);
        },
        ast::ExprKind::DisplayTimezone { expr, timezone } => {
            lemma_lowered(c, *expr, st);
            lemma_single(lowered(c, *expr, st).0);
        },
        ast::ExprKind::FieldAccess { expr, field } => {
            lemma_lowered(c, *expr, st);
            lemma_single(lowered(c, *expr, st).0);
        },
        ast::ExprKind::ForComp { bindings, body } => {
            lemma_lowered(c, *body, st);
            lemma_single(lowered(c, *body, st).0);
        },
        ast::ExprKind::Scan { source, init, acc_name, val_name, body } => {
            let (x, a) = lowered(c, *source, st);
            let (y, b) = lowered(c, *init, a);
            let (z, d) = lowered(c, *body, b);
            lemma_lowered(c, *source, st);
            lemma_lowered(c, *init, a);
            lemma_lowered(c, *body, b);
            lemma_join(ids(x), ids(y), st.next, a.next, b.next);
            lemma_join(ids(x) + ids(y), ids(z), st.next, b.next, d.next);
            lemma_three(x, y, z);
        },
        ast::ExprKind::Unfold { axis, init, prev_state_name, prev_index_name, index_name, body } => {
            let (x, a) = lowered(c, *init, st);
            let (y, b) = lowered(c, *body, a);
            lemma_lowered(c, *init, st);
            lemma_lowered(c, *body, a);
            lemma_join(ids(x), ids(y), st.next, a.next, b.next);
            lemma_two(x, y);
        },
        ast::ExprKind::KeyForm { kind, axis, arg } => {
            lemma_lowered(c, *arg, st);
            lemma_single(lowered(c, *arg, st).0);
        },
        ast::ExprKind::FnCall { callee, generic_args, args } => lemma_exprs(c, args, args.len() as nat, st),
        ast::ExprKind::ConstructorCall { callee, generic_args, fields } => lemma_field_values(
            c,
            fields,
            fields.len() as nat,
            st,
        ),
        ast::ExprKind::MapLiteral { entries } => lemma_entries_exprs(c, entries, entries.len() as nat, st),
        ast::ExprKind::IndexAccess { expr, args } => {
            let (t, a) = lowered(c, *expr, st);
            let (first, b) = lowered_arg_expr(c, *args.first, a);
            let (rest, d) = lowered_arg_exprs(c, args.rest, args.rest.len() as nat, b);
            lemma_lowered(c, *expr, st);
            lemma_arg_expr(c, *args.first, a);
            lemma_arg_exprs(c, args.rest, args.rest.len() as nat, b);
            lemma_single(t);
            lemma_concat(seq![t], first);
            lemma_concat(seq![t] + first, rest);
            lemma_join(ids(t), list_ids(first), st.next, a.next, b.next);
            lemma_join(list_ids(seq![t] + first), list_ids(rest), st.next, b.next, d.next);
        },
        ast::ExprKind::Match { scrutinee, arms } => {
            let (t, a) = lowered(c, *scrutinee, st);
            let (rest, b) = lowered_arm_bodies(c, arms, arms.len() as nat, a);
            lemma_lowered(c, *scrutinee, st);
            lemma_arm_bodies(c, arms, arms.len() as nat, a);
            lemma_single(t);
            lemma_concat(seq![t], rest);
            lemma_join(ids(t), list_ids(rest), st.next, a.next, b.next);
        },
        ast::ExprKind::InlineDagRef { path, args, output } => lemma_binding_values(
            c,
            args,
            args.len() as nat,
            st,
        ),
        _ => {},
    }
}

proof fn lemma_function_arg(c: Ctx, f: Fun, only: bool, arg: ast::Expr, st: St)
    ensures
        numbered(st, function_arg(c, f, only, arg, st)),
    decreases arg, 3int,
{
    lemma_none(st.next);
    lemma_lowered(c, arg, st);
    match function_arg(c, f, only, arg, st) {
        Low::Done(Term::Node(_, parts), _) => match *parts {
            Term::Pair(kind, _) => lemma_expr(*kind, arg.span),
            _ => {},
        },
        _ => {},
    }
}

proof fn lemma_zoned_args(c: Ctx, v: Vec<ast::Expr>, st: St)
    ensures
        all_numbered(st, zoned_args(c, v, st)),
    decreases v, 0nat,
{
    lemma_none(st.next);
    if v.len() == 2 {
        lemma_zoned_datetime_arg(c, v[0], st);
        match zoned_datetime_arg(c, v[0], st) {
            Low::Done((datetime, literal), middle) => {
                lemma_zone_arg(c, v[1], middle);
                match zone_arg(c, v[1], middle) {
                    Low::Done((zone, name), after) => {
                        lemma_join(ids(datetime), ids(zone), st.next, middle.next, after.next);
                        lemma_two(datetime, zone);
                        if literal is Some && name is Some {
                            match zoned_literal(literal->0, name->0, v[0].span, v[1].span) {
                                Ok(t) => {
                                    let zoned = hir_expr(node1(Tag::HirExprZonedDateTimeLiteral, t), v[0].span);
                                    lemma_leaf(node1(Tag::HirExprZonedDateTimeLiteral, t), v[0].span);
                                    lemma_two(zoned, zone);
                                    assert(Seq::<int>::empty() + ids(zone) =~= ids(zone));
                                },
                                Err(_) => {},
                            }
                        }
                    },
                    Low::Failed(_) => {},
                }
            },
            Low::Failed(_) => {},
        }
    }
}

proof fn lemma_zoned_datetime_arg(c: Ctx, arg: ast::Expr, st: St)
    ensures
        match zoned_datetime_arg(c, arg, st) {
            Low::Done((t, literal), after) => fresh(ids(t), st.next, after.next) && (literal is Some ==> after == st),
            Low::Failed(_) => true,
        },
    decreases arg, 3int,
{
    lemma_none(st.next);
    lemma_lowered(c, arg, st);
    match zoned_datetime_arg(c, arg, st) {
        Low::Done((Term::Node(_, parts), Some(_)), _) => match *parts {
            Term::Pair(kind, _) => lemma_leaf(*kind, arg.span),
            _ => {},
        },
        _ => {},
    }
}

proof fn lemma_zone_arg(c: Ctx, arg: ast::Expr, st: St)
    ensures
        match zone_arg(c, arg, st) {
            Low::Done((t, name), after) => fresh(ids(t), st.next, after.next),
            Low::Failed(_) => true,
        },
    decreases arg, 3int,
{
    lemma_none(st.next);
    lemma_lowered(c, arg, st);
    match zone_arg(c, arg, st) {
        Low::Done((Term::Node(_, parts), Some(_)), _) => match *parts {
            Term::Pair(kind, _) => lemma_leaf(*kind, arg.span),
            _ => {},
        },
        _ => {},
    }
}

proof fn lemma_function_args(c: Ctx, f: Fun, v: Vec<ast::Expr>, n: nat, st: St)
    ensures
        all_numbered(st, function_args_upto(c, f, v, n, st)),
    decreases v, n,
{
    lemma_none(st.next);
    if 0 < n <= v.len() {
        lemma_function_args(c, f, v, (n - 1) as nat, st);
        match function_args_upto(c, f, v, (n - 1) as nat, st) {
            Low::Done(before, middle) => {
                lemma_function_arg(c, f, v.len() == 1, v[n - 1], middle);
                match function_arg(c, f, v.len() == 1, v[n - 1], middle) {
                    Low::Done(item, after) => {
                        lemma_push(before, item);
                        lemma_join(list_ids(before), ids(item), st.next, middle.next, after.next);
                    },
                    Low::Failed(_) => {},
                }
            },
            Low::Failed(_) => {},
        }
    }
}

proof fn lemma_key(c: Ctx, key: ast::MapEntryKey, map_span: Span, st: St)
    ensures
        numbered(st, lowered_key(c, key, map_span, st)),
    decreases key,
{
    lemma_none(st.next);
    match key {
        ast::MapEntryKey::Expression { axis, expr } => {
            lemma_lowered(c, expr, st);
            match lowered_key(c, key, map_span, st) {
                Low::Done(Term::Node(_, parts), _) => match *parts {
                    Term::Pair(a, b) => lemma_node2(Tag::HirMapEntryKeyExpression, *a, *b),
                    _ => {},
                },
                _ => {},
            }
        },
        ast::MapEntryKey::Discrete { index, additional_index_spans, entry } => reveal(discrete_key),
    }
}

proof fn lemma_keys(c: Ctx, v: Vec<ast::MapEntryKey>, n: nat, map_span: Span, st: St)
    ensures
        all_numbered(st, lowered_keys(c, v, n, map_span, st)),
    decreases v, n,
{
    lemma_none(st.next);
    if 0 < n <= v.len() {
        lemma_keys(c, v, (n - 1) as nat, map_span, st);
        match lowered_keys(c, v, (n - 1) as nat, map_span, st) {
            Low::Done(before, middle) => {
                lemma_key(c, v[n - 1], map_span, middle);
                match lowered_key(c, v[n - 1], map_span, middle) {
                    Low::Done(item, after) => {
                        lemma_push(before, item);
                        lemma_join(list_ids(before), ids(item), st.next, middle.next, after.next);
                    },
                    Low::Failed(_) => {},
                }
            },
            Low::Failed(_) => {},
        }
    }
}

proof fn lemma_entry(c: Ctx, entry: ast::MapEntry, map_span: Span, st: St)
    ensures
        numbered(st, lowered_entry(c, entry, map_span, st)),
    decreases entry,
{
    lemma_key(c, *entry.keys.first, map_span, st);
    match lowered_key(c, *entry.keys.first, map_span, st) {
        Low::Done(first, a) => {
            lemma_keys(c, entry.keys.rest, entry.keys.rest.len() as nat, map_span, a);
            match lowered_keys(c, entry.keys.rest, entry.keys.rest.len() as nat, map_span, a) {
                Low::Done(rest, b) => {
                    let (value, after) = lowered(c, entry.value, b);
                    lemma_lowered(c, entry.value, b);
                    lemma_single(first);
                    lemma_concat(seq![first], rest);
                    lemma_node2(Tag::HirMapEntry, Term::List(prepend(first, rest)), value);
                    lemma_join(ids(first), list_ids(rest), st.next, a.next, b.next);
                    lemma_join(list_ids(prepend(first, rest)), ids(value), st.next, b.next, after.next);
                },
                Low::Failed(_) => {},
            }
        },
        Low::Failed(_) => {},
    }
}

proof fn lemma_entries(c: Ctx, v: Vec<ast::MapEntry>, n: nat, map_span: Span, st: St)
    ensures
        all_numbered(st, lowered_entries(c, v, n, map_span, st)),
    decreases v, n,
{
    lemma_none(st.next);
    if 0 < n <= v.len() {
        lemma_entries(c, v, (n - 1) as nat, map_span, st);
        match lowered_entries(c, v, (n - 1) as nat, map_span, st) {
            Low::Done(before, middle) => {
                lemma_entry(c, v[n - 1], map_span, middle);
                match lowered_entry(c, v[n - 1], map_span, middle) {
                    Low::Done(item, after) => {
                        lemma_push(before, item);
                        lemma_join(list_ids(before), ids(item), st.next, middle.next, after.next);
                    },
                    Low::Failed(_) => {},
                }
            },
            Low::Failed(_) => {},
        }
    }
}

proof fn lemma_for_binding(c: Ctx, binding: ForBinding, st: St)
    ensures
        match for_binding(c, binding, st) {
            Low::Done((item, _), after) => fresh(ids(item), st.next, after.next),
            Low::Failed(_) => true,
        },
{
    reveal(for_binding);
    match for_binding(c, binding, st) {
        Low::Done((item, local), after) => {
            lemma_local(local);
            match for_index(c, binding.index) {
                Ok(index) => lemma_node2(Tag::HirForBinding, local.to_term(), index),
                Err(_) => {},
            }
        },
        Low::Failed(_) => {},
    }
}

proof fn lemma_for_bindings(c: Ctx, v: Seq<ForBinding>, n: nat, st: St)
    ensures
        match for_bindings(c, v, n, st) {
            Low::Done((items, _), after) => fresh(list_ids(items), st.next, after.next),
            Low::Failed(_) => true,
        },
    decreases n,
{
    lemma_none(st.next);
    if 0 < n <= v.len() {
        lemma_for_bindings(c, v, (n - 1) as nat, st);
        match for_bindings(c, v, (n - 1) as nat, st) {
            Low::Done((before, _), middle) => {
                lemma_for_binding(c, v[n - 1], middle);
                match for_binding(c, v[n - 1], middle) {
                    Low::Done((item, _), after) => {
                        lemma_push(before, item);
                        lemma_join(list_ids(before), ids(item), st.next, middle.next, after.next);
                    },
                    Low::Failed(_) => {},
                }
            },
            Low::Failed(_) => {},
        }
    }
}

proof fn lemma_pattern_binding(binding: PatternBinding, st: St)
    ensures
        match pattern_binding(binding, st) {
            Low::Done((item, _), after) => fresh(ids(item), st.next, after.next),
            Low::Failed(_) => true,
        },
{
    reveal(pattern_binding);
    lemma_none(st.next);
    match binding {
        PatternBinding::Bind { field, var } => match allocated(st, var.name.text@, var.span) {
            Low::Done(local, after) => {
                lemma_local(local);
                lemma_node2(Tag::HirPatternBindingBind, field.term(Spans::Kept), local.to_term());
            },
            Low::Failed(_) => {},
        },
        PatternBinding::Wildcard { field, span } => {},
    }
}

proof fn lemma_pattern_bindings(v: Seq<PatternBinding>, n: nat, st: St)
    ensures
        match pattern_bindings(v, n, st) {
            Low::Done((items, _), after) => fresh(list_ids(items), st.next, after.next),
            Low::Failed(_) => true,
        },
    decreases n,
{
    lemma_none(st.next);
    if 0 < n <= v.len() {
        lemma_pattern_bindings(v, (n - 1) as nat, st);
        match pattern_bindings(v, (n - 1) as nat, st) {
            Low::Done((before, _), middle) => {
                lemma_pattern_binding(v[n - 1], middle);
                match pattern_binding(v[n - 1], middle) {
                    Low::Done((item, _), after) => {
                        lemma_push(before, item);
                        lemma_join(list_ids(before), ids(item), st.next, middle.next, after.next);
                    },
                    Low::Failed(_) => {},
                }
            },
            Low::Failed(_) => {},
        }
    }
}

proof fn lemma_constructor_pattern(constructor: Term, at: Span, bindings: Seq<PatternBinding>, span: Span, st: St)
    ensures
        match constructor_pattern(constructor, at, bindings, span, st) {
            Low::Done((item, _), after) => fresh(ids(item), st.next, after.next),
            Low::Failed(_) => true,
        },
{
    reveal(constructor_pattern);
    lemma_pattern_bindings(bindings, bindings.len(), st);
    match pattern_bindings(bindings, bindings.len(), st) {
        Low::Done((items, _), _) => {
            let list = Term::List(items);
            lemma_node3(Tag::HirMatchPatternConstructor, pair(constructor, Term::At(at)), list, Term::At(span));
            assert(ids(list) + ids(Term::At(span)) =~= list_ids(items));
        },
        Low::Failed(_) => {},
    }
}

proof fn lemma_pattern(c: Ctx, pattern: MatchPattern, st: St)
    ensures
        match match_pattern(c, pattern, st) {
            Low::Done((item, _), after) => fresh(ids(item), st.next, after.next),
            Low::Failed(_) => true,
        },
{
    reveal(match_pattern);
    reveal(path_pattern);
    lemma_none(st.next);
    match pattern {
        MatchPattern::Path { path, bindings, span } => match constructor_of(c, idents_of(path)) {
            Ok(t) => lemma_constructor_pattern(t, ident_path_span(path), bindings@, span, st),
            Err(_) => {},
        },
        MatchPattern::Constructor { name, bindings, span } => match constructor_of(c, seq![name.value.atom.text@]) {
            Ok(t) => lemma_constructor_pattern(t, name.span, bindings@, span, st),
            Err(_) => {},
        },
        MatchPattern::IndexLabel { index, variant, span } => {},
    }
}

/// The numbers of locals, in order.
pub open spec fn numbers(locals: Seq<Local>) -> Seq<int> {
    Seq::new(locals.len(), |i: int| locals[i].id)
}

proof fn lemma_fold_locals(names: Seq<Spanned<LocalName>>, n: nat, st: St)
    requires
        n <= names.len(),
    ensures
        match fold_locals(names, n, st) {
            Low::Done(locals, after) => locals.len() == n && fresh(numbers(locals), st.next, after.next),
            Low::Failed(_) => true,
        },
    decreases n,
{
    lemma_none(st.next);
    if n == 0 {
        assert(numbers(Seq::empty()) =~= Seq::empty());
    } else {
        lemma_fold_locals(names, (n - 1) as nat, st);
        match fold_locals(names, (n - 1) as nat, st) {
            Low::Done(before, middle) => match fold_locals(names, n, st) {
                Low::Done(locals, after) => {
                    lemma_join(numbers(before), seq![middle.next], st.next, middle.next, after.next);
                    assert(numbers(locals) =~= numbers(before) + seq![middle.next]);
                },
                Low::Failed(_) => {},
            },
            Low::Failed(_) => {},
        }
    }
}

proof fn lemma_in_scope(c: Ctx, e: ast::Expr, locals: Seq<Local>, st: St)
    ensures
        numbered(st, lowered_in(c, e, locals, st)),
    decreases e, 3int,
{
    lemma_lowered(c, e, St { scopes: st.scopes.push(locals), ..st });
}

proof fn lemma_index_arg(c: Ctx, arg: ast::IndexArg, st: St)
    ensures
        numbered(st, index_arg(c, arg, st)),
    decreases arg,
{
    lemma_none(st.next);
    match arg {
        ast::IndexArg::Expr(e) => {
            lemma_lowered(c, *e, st);
            lemma_node1(Tag::HirIndexArgExpr, lowered(c, *e, st).0);
        },
        _ => {},
    }
}

proof fn lemma_index_args(c: Ctx, v: Vec<ast::IndexArg>, n: nat, st: St)
    ensures
        all_numbered(st, index_args(c, v, n, st)),
    decreases v, n,
{
    lemma_none(st.next);
    if 0 < n <= v.len() {
        lemma_index_args(c, v, (n - 1) as nat, st);
        match index_args(c, v, (n - 1) as nat, st) {
            Low::Done(before, middle) => {
                lemma_index_arg(c, v[n - 1], middle);
                match index_arg(c, v[n - 1], middle) {
                    Low::Done(item, after) => {
                        lemma_push(before, item);
                        lemma_join(list_ids(before), ids(item), st.next, middle.next, after.next);
                    },
                    Low::Failed(_) => {},
                }
            },
            Low::Failed(_) => {},
        }
    }
}

proof fn lemma_arm(c: Ctx, arm: ast::MatchArm, st: St)
    ensures
        numbered(st, lowered_arm(c, arm, st)),
    decreases arm,
{
    lemma_pattern(c, arm.pattern, st);
    match match_pattern(c, arm.pattern, st) {
        Low::Done((pattern, locals), middle) => {
            lemma_in_scope(c, arm.body, locals, middle);
            match lowered_in(c, arm.body, locals, middle) {
                Low::Done(body, after) => {
                    lemma_node3(Tag::HirMatchArm, pattern, body, Term::At(arm.span));
                    assert(ids(body) + ids(Term::At(arm.span)) =~= ids(body));
                    lemma_join(ids(pattern), ids(body), st.next, middle.next, after.next);
                },
                Low::Failed(_) => {},
            }
        },
        Low::Failed(_) => {},
    }
}

proof fn lemma_arms(c: Ctx, v: Vec<ast::MatchArm>, n: nat, st: St)
    ensures
        all_numbered(st, lowered_arms(c, v, n, st)),
    decreases v, n,
{
    lemma_none(st.next);
    if 0 < n <= v.len() {
        lemma_arms(c, v, (n - 1) as nat, st);
        match lowered_arms(c, v, (n - 1) as nat, st) {
            Low::Done(before, middle) => {
                lemma_arm(c, v[n - 1], middle);
                match lowered_arm(c, v[n - 1], middle) {
                    Low::Done(item, after) => {
                        lemma_push(before, item);
                        lemma_join(list_ids(before), ids(item), st.next, middle.next, after.next);
                    },
                    Low::Failed(_) => {},
                }
            },
            Low::Failed(_) => {},
        }
    }
}

proof fn lemma_param_binding(c: Ctx, target: Seq<Seq<char>>, binding: ast::ParamBinding, st: St)
    ensures
        numbered(st, param_binding(c, target, binding, st)),
    decreases binding,
{
    lemma_lowered(c, binding.value, st);
    match param_binding(c, target, binding, st) {
        Low::Done(Term::Node(_, parts), _) => match *parts {
            Term::Pair(a, b) => lemma_node2(Tag::HirParamBinding, *a, *b),
            _ => {},
        },
        _ => {},
    }
}

proof fn lemma_param_bindings(c: Ctx, target: Seq<Seq<char>>, v: Vec<ast::ParamBinding>, n: nat, st: St)
    ensures
        all_numbered(st, param_bindings(c, target, v, n, st)),
    decreases v, n,
{
    lemma_none(st.next);
    if 0 < n <= v.len() {
        lemma_param_bindings(c, target, v, (n - 1) as nat, st);
        match param_bindings(c, target, v, (n - 1) as nat, st) {
            Low::Done(before, middle) => {
                lemma_param_binding(c, target, v[n - 1], middle);
                match param_binding(c, target, v[n - 1], middle) {
                    Low::Done(item, after) => {
                        lemma_push(before, item);
                        lemma_join(list_ids(before), ids(item), st.next, middle.next, after.next);
                    },
                    Low::Failed(_) => {},
                }
            },
            Low::Failed(_) => {},
        }
    }
}

proof fn lemma_call(c: Ctx, callee: IdentPath, generics: Vec<ast::GenericArg>, args: Vec<ast::Expr>, st: St)
    ensures
        numbered(st, lowered_call(c, callee, generics, args, st)),
    decreases args, args.len() + 2,
{
    let span = ident_path_span(callee);
    match function_ref(c, callee) {
        Ok(named) => match function_application(named, generics@, dotted_path(idents_of(callee)), span) {
            Ok(f) => {
                lemma_all_args(c, f, args, st);
                match function_args(c, f, args, st) {
                    Low::Done(items, _) => lemma_node2(
                        Tag::HirExprFnCall,
                        pair(f.to_term(), Term::At(span)),
                        Term::List(items),
                    ),
                    Low::Failed(_) => {},
                }
            },
            Err(_) => {},
        },
        Err(_) => {},
    }
}

proof fn lemma_all_args(c: Ctx, f: Fun, v: Vec<ast::Expr>, st: St)
    ensures
        all_numbered(st, function_args(c, f, v, st)),
    decreases v, v.len() + 1,
{
    lemma_zoned_args(c, v, st);
    lemma_function_args(c, f, v, v.len() as nat, st);
}

proof fn lemma_constructor(
    c: Ctx,
    callee: IdentPath,
    generics: Vec<ast::GenericArg>,
    fields: Vec<ast::FieldInit>,
    span: Span,
    st: St,
)
    ensures
        numbered(st, lowered_constructor(c, callee, generics, fields, span, st)),
    decreases fields, fields.len() + 1,
{
    lemma_fields(c, fields, fields.len() as nat, st);
    match lowered_constructor(c, callee, generics, fields, span, st) {
        Low::Done(Term::Node(_, parts), _) => match *parts {
            Term::Pair(a, rest) => match *rest {
                Term::Pair(b, d) => lemma_node3(Tag::HirExprConstructorCall, *a, *b, *d),
                _ => {},
            },
            _ => {},
        },
        _ => {},
    }
}

proof fn lemma_dag_call(
    c: Ctx,
    path: ModulePath,
    args: Vec<ast::ParamBinding>,
    output: Spanned<DeclName>,
    st: St,
)
    ensures
        numbered(st, dag_call(c, path, args, output, st)),
    decreases args, args.len() + 1,
{
    match module_resolution(c.modules, c.owner, segment_names(path.segments)) {
        Ok(target) => {
            lemma_param_bindings(c, target, args, args.len() as nat, st);
            match dag_call(c, path, args, output, st) {
                Low::Done(Term::Node(_, parts), _) => match *parts {
                    Term::Pair(a, rest) => match *rest {
                        Term::Pair(b, d) => lemma_node3(Tag::HirExprDagCall, *a, *b, *d),
                        _ => {},
                    },
                    _ => {},
                },
                _ => {},
            }
        },
        Err(_) => {},
    }
}

proof fn lemma_dotted(c: Ctx, path: IdentPath)
    ensures
        dotted_ref(c, path) is Ok ==> ids(dotted_ref(c, path)->Ok_0) == Seq::<int>::empty(),
{
    reveal(dotted_ref);
}

proof fn lemma_module_ref(c: Ctx, name: Seq<char>, span: Span)
    ensures
        module_ref(c, name, span) is Ok ==> ids(module_ref(c, name, span)->Ok_0) == Seq::<int>::empty(),
{
    reveal(module_ref);
    assert(list_ids(Seq::empty()) == Seq::<int>::empty());
    match constructor_of(c, seq![name]) {
        Ok(t) => lemma_node3(
            Tag::HirExprConstructorCall,
            pair(t, Term::At(span)),
            Term::List(Seq::empty()),
            Term::List(Seq::empty()),
        ),
        Err(_) => {},
    }
}

proof fn lemma_reference(c: Ctx, st: St, path: IdentPath)
    ensures
        unresolved_ref(c, st, path) is Ok ==> ids(unresolved_ref(c, st, path)->Ok_0) == Seq::<int>::empty(),
{
    reveal(unresolved_ref);
    lemma_dotted(c, path);
    lemma_module_ref(c, idents_of(path)[0], path.segments@[0].span);
}

proof fn lemma_kind(c: Ctx, e: ast::Expr, st: St)
    ensures
        numbered(st, lowered_kind(c, e, st)),
    decreases e, 1int,
{
    lemma_none(st.next);
    match e.kind {
        ast::ExprKind::UnresolvedRef(UnresolvedRef::Path(path)) => lemma_reference(c, st, path),
        ast::ExprKind::BinOp { op, lhs, rhs } => {
            let (x, a) = lowered(c, *lhs, st);
            let (y, b) = lowered(c, *rhs, a);
            lemma_lowered(c, *lhs, st);
            lemma_lowered(c, *rhs, a);
            lemma_join(ids(x), ids(y), st.next, a.next, b.next);
            lemma_node3(Tag::HirExprBinOp, Term::Symbol(Symbol::BinOp(op)), x, y);
        },
        ast::ExprKind::If { condition, then_branch, else_branch } => {
            let (x, a) = lowered(c, *condition, st);
            let (y, b) = lowered(c, *then_branch, a);
            let (z, d) = lowered(c, *else_branch, b);
            lemma_lowered(c, *condition, st);
            lemma_lowered(c, *then_branch, a);
            lemma_lowered(c, *else_branch, b);
            lemma_join(ids(y), ids(z), a.next, b.next, d.next);
            lemma_join(ids(x), ids(y) + ids(z), st.next, a.next, d.next);
            lemma_node3(Tag::HirExprIf, x, y, z);
        },
        ast::ExprKind::UnaryOp { op, operand } => {
            lemma_lowered(c, *operand, st);
            match lowered_kind(c, e, st) {
                Low::Done(Term::Node(_, parts), _) => match *parts {
                    Term::Pair(a, b) => lemma_node2(Tag::HirExprUnaryOp, *a, *b),
                    _ => {},
                },
                _ => {},
            }
        },
        ast::ExprKind::Convert { expr, target } => {
            lemma_lowered(c, *expr, st);
            match lowered_kind(c, e, st) {
                Low::Done(Term::Node(_, parts), _) => match *parts {
                    Term::Pair(a, b) => lemma_node2(Tag::HirExprConvert, *a, *b),
                    _ => {},
                },
                _ => {},
            }
        },
        ast::ExprKind::DisplayTimezone { expr, timezone } => {
            lemma_lowered(c, *expr, st);
            match lowered_kind(c, e, st) {
                Low::Done(Term::Node(_, parts), _) => match *parts {
                    Term::Pair(a, b) => lemma_node2(Tag::HirExprDisplayTimezone, *a, *b),
                    _ => {},
                },
                _ => {},
            }
        },
        ast::ExprKind::FieldAccess { expr, field } => {
            reveal(alias_field);
            lemma_lowered(c, *expr, st);
            lemma_node2(Tag::HirExprFieldAccess, lowered(c, *expr, st).0, field.term(Spans::Kept));
        },
        ast::ExprKind::KeyForm { kind, axis, arg } => lemma_key_form(c, e, st),
        ast::ExprKind::FnCall { callee, generic_args, args } => lemma_call(c, callee, generic_args, args, st),
        ast::ExprKind::ConstructorCall { callee, generic_args, fields } => lemma_constructor(
            c,
            callee,
            generic_args,
            fields,
            e.span,
            st,
        ),
        ast::ExprKind::MapLiteral { entries } => {
            lemma_entries(c, entries, entries.len() as nat, e.span, st);
            match lowered_entries(c, entries, entries.len() as nat, e.span, st) {
                Low::Done(items, _) => lemma_node1(Tag::HirExprMapLiteral, Term::List(items)),
                Low::Failed(_) => {},
            }
        },
        ast::ExprKind::InlineDagRef { path, args, output } => lemma_dag_call(c, path, args, output, st),
        ast::ExprKind::IndexAccess { expr, args } => {
            let (t, a) = lowered(c, *expr, st);
            lemma_lowered(c, *expr, st);
            lemma_index_arg(c, *args.first, a);
            match index_arg(c, *args.first, a) {
                Low::Done(first, b) => {
                    lemma_index_args(c, args.rest, args.rest.len() as nat, b);
                    match index_args(c, args.rest, args.rest.len() as nat, b) {
                        Low::Done(rest, after) => {
                            lemma_single(first);
                            lemma_concat(seq![first], rest);
                            lemma_node2(Tag::HirExprIndexAccess, t, Term::List(prepend(first, rest)));
                            lemma_join(ids(first), list_ids(rest), a.next, b.next, after.next);
                            lemma_join(ids(t), list_ids(prepend(first, rest)), st.next, a.next, after.next);
                        },
                        Low::Failed(_) => {},
                    }
                },
                Low::Failed(_) => {},
            }
        },
        ast::ExprKind::Match { scrutinee, arms } => {
            let (t, a) = lowered(c, *scrutinee, st);
            lemma_lowered(c, *scrutinee, st);
            lemma_arms(c, arms, arms.len() as nat, a);
            match lowered_arms(c, arms, arms.len() as nat, a) {
                Low::Done(items, after) => {
                    lemma_node2(Tag::HirExprMatch, t, Term::List(items));
                    lemma_join(ids(t), list_ids(items), st.next, a.next, after.next);
                },
                Low::Failed(_) => {},
            }
        },
        ast::ExprKind::ForComp { bindings, body } => {
            lemma_for_bindings(c, bindings@, bindings@.len(), st);
            match for_bindings(c, bindings@, bindings@.len(), st) {
                Low::Done((items, locals), middle) => {
                    lemma_in_scope(c, *body, locals, middle);
                    match lowered_in(c, *body, locals, middle) {
                        Low::Done(t, after) => {
                            lemma_node2(Tag::HirExprForComp, Term::List(items), t);
                            lemma_join(list_ids(items), ids(t), st.next, middle.next, after.next);
                        },
                        Low::Failed(_) => {},
                    }
                },
                Low::Failed(_) => {},
            }
        },
        ast::ExprKind::Scan { source, init, acc_name, val_name, body } => lemma_scan(c, e, st),
        ast::ExprKind::Unfold {
            axis,
            init,
            prev_state_name,
            prev_index_name,
            index_name,
            body,
        } => lemma_unfold(c, e, st),
        _ => {},
    }
}

proof fn lemma_key_form(c: Ctx, e: ast::Expr, st: St)
    requires
        e.kind is KeyForm,
    ensures
        numbered(st, lowered_kind(c, e, st)),
    decreases e, 0int,
{
    match e.kind {
        ast::ExprKind::KeyForm { kind, axis, arg } => {
            let (t, _) = lowered(c, *arg, st);
            lemma_lowered(c, *arg, st);
            match key_axis(c, axis) {
                Ok(index) => {
                    let at = Term::At(index_expr_span(axis));
                    lemma_node3(Tag::HirExprKeyForm, Term::Symbol(Symbol::KeyFormKind(kind)), index, pair(at, t));
                    assert(ids(pair(at, t)) =~= ids(t)) by {
                        reveal_with_fuel(ids, 2);
                    }
                },
                Err(_) => {},
            }
        },
        _ => {},
    }
}

proof fn lemma_scan(c: Ctx, e: ast::Expr, st: St)
    requires
        e.kind is Scan,
    ensures
        numbered(st, lowered_kind(c, e, st)),
    decreases e, 0int,
{
    match e.kind {
        ast::ExprKind::Scan { source, init, acc_name, val_name, body } => {
            let (x, a) = lowered(c, *source, st);
            let (y, b) = lowered(c, *init, a);
            let names = seq![acc_name, val_name];
            lemma_lowered(c, *source, st);
            lemma_lowered(c, *init, a);
            lemma_fold_locals(names, 2, b);
            match fold_locals(names, 2, b) {
                Low::Done(locals, middle) => {
                    lemma_in_scope(c, *body, locals, middle);
                    match lowered_in(c, *body, locals, middle) {
                        Low::Done(z, after) => {
                            let bound = pair(locals[0].to_term(), pair(locals[1].to_term(), z));
                            lemma_local(locals[0]);
                            lemma_local(locals[1]);
                            assert(ids(bound) =~= numbers(locals) + ids(z)) by {
                                reveal_with_fuel(ids, 3);
                            }
                            lemma_node3(Tag::HirExprScan, x, y, bound);
                            lemma_join(numbers(locals), ids(z), b.next, middle.next, after.next);
                            lemma_join(ids(y), ids(bound), a.next, b.next, after.next);
                            lemma_join(ids(x), ids(y) + ids(bound), st.next, a.next, after.next);
                        },
                        Low::Failed(_) => {},
                    }
                },
                Low::Failed(_) => {},
            }
        },
        _ => {},
    }
}

proof fn lemma_unfold(c: Ctx, e: ast::Expr, st: St)
    requires
        e.kind is Unfold,
    ensures
        numbered(st, lowered_kind(c, e, st)),
    decreases e, 0int,
{
    match e.kind {
        ast::ExprKind::Unfold { axis, init, prev_state_name, prev_index_name, index_name, body } => {
            let (x, a) = lowered(c, *init, st);
            let names = seq![prev_state_name, prev_index_name, index_name];
            lemma_lowered(c, *init, st);
            lemma_fold_locals(names, 3, a);
            match (spanned_index(c, axis), fold_locals(names, 3, a)) {
                (Ok(index), Low::Done(locals, middle)) => {
                    lemma_in_scope(c, *body, locals, middle);
                    match lowered_in(c, *body, locals, middle) {
                        Low::Done(y, after) => {
                            let later = pair(locals[1].to_term(), locals[2].to_term());
                            let recurrence = node3(Tag::HirUnfoldRecurrence, index, locals[0].to_term(), later);
                            lemma_local(locals[0]);
                            lemma_local(locals[1]);
                            lemma_local(locals[2]);
                            lemma_node3(Tag::HirUnfoldRecurrence, index, locals[0].to_term(), later);
                            assert(ids(recurrence) =~= numbers(locals)) by {
                                reveal_with_fuel(ids, 2);
                            }
                            lemma_node3(Tag::HirExprUnfold, recurrence, x, y);
                            lemma_join(ids(x), numbers(locals), st.next, a.next, middle.next);
                            lemma_join(numbers(locals) + ids(x), ids(y), st.next, middle.next, after.next);
                            assert(numbers(locals) + (ids(x) + ids(y)) =~= numbers(locals) + ids(x) + ids(y));
                        },
                        Low::Failed(_) => {},
                    }
                },
                _ => {},
            }
        },
        _ => {},
    }
}

/// No two locals of a resolved expression have the same number, whether or not
/// all of it resolved.
pub proof fn law_locals_have_their_own_numbers(c: Ctx, e: ast::Expr)
    ensures
        ids(lowered_alone(c, e).0).no_duplicates(),
{
    lemma_lowered(c, e, St { scopes: Seq::empty(), next: 0, errors: Seq::empty() });
}

} // verus!
