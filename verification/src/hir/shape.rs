//! A resolved expression has the shape of the expression that it comes from.

use crate::desugar::desugared_ast as ast;
use crate::exact_rational::ExactRational;
use crate::hir::context::Ctx;
use crate::hir::datetime::{civil_datetime, offset_datetime, time_zone_name, zoned_datetime, ZonedResult};
use crate::hir::laws::{
    law_resolution_keeps_scopes, lemma_fold_locals, lemma_for_bindings, lemma_index_arg, lemma_index_args,
    lemma_pattern,
};
use crate::hir::lowering::{
    alias_field, civil_literal, constructor_params, constructor_pattern, dag_call, discrete_key, dotted_ref, earlier,
    entered, error_children, first_duplicate, fold_locals, for_binding, for_bindings, function_application,
    function_arg, function_args_upto, function_ref, hir_expr, ident_path_span, index_arg, index_args, index_expr_span, local_in,
    local_of_name, lowered, lowered_arg_expr, lowered_arg_exprs, lowered_arm, lowered_arm_bodies, lowered_arms,
    lowered_binding_values, lowered_call, lowered_constructor, lowered_entries, lowered_entries_exprs, lowered_entry,
    lowered_entry_exprs, lowered_exprs, lowered_field_values, lowered_fields, lowered_in, lowered_key,
    lowered_key_expr, lowered_key_exprs, lowered_keys, lowered_kind, match_pattern, module_ref, param_binding, param_bindings,
    path_pattern, pattern_binding, pattern_bindings, segment_names, spanned_index, time_zone, unit_expr, unit_item,
    unit_items, unresolved_ref, variant_parts, zone_arg, zoned_args, zoned_datetime_arg, zoned_literal, Fun, Local,
    Low, St,
};
use crate::hir::generics::{constraints_of, generic_args, generic_args_upto};
use crate::hir::lower_state::local_of;
use crate::hir::resolve::{
    bare_variant_resolution, dotted_path, idents_of, module_resolution, variant_path_resolution, variant_resolution,
};
use crate::hir::tree::{
    BuiltinFnName, Expr, ExprKind, FieldInit, ForBinding, FunctionRef, IndexArg, IndexVariantRef, LocalDef, MapEntry,
    MapEntryKey, MatchArm, MatchPattern, ParamBinding, PatternBinding, ResolvedUnitExpr, ResolvedUnitExprItem,
};
use crate::syntax::ast::{IdentPath, IndexEntryKey, MapEntryIndex, UnitExpr, UnitExprItem, UnitRef, UnresolvedRef};
use crate::syntax::names::LocalName;
use crate::syntax::span::{merged, Span, Spanned};
use crate::syntax::term::{lemma_prepend, node1, seq_terms, Spans, Syntax, Tag, Term};
use vstd::prelude::*;

verus! {

// Locals in scope, the innermost last.

pub open spec fn binds_at(env: Seq<Local>, name: Seq<char>, id: int, k: int) -> bool {
    &&& 0 <= k < env.len()
    &&& env[k].name == name
    &&& env[k].id == id
    &&& forall|j: int| k < j < env.len() ==> (#[trigger] env[j]).name != name
}

/// Whether a name stands for a local: the innermost one that has it.
pub open spec fn binds(env: Seq<Local>, name: Seq<char>, id: int) -> bool {
    exists|k: int| #[trigger] binds_at(env, name, id, k)
}

/// Whether no local has a name.
pub open spec fn is_free(env: Seq<Local>, name: Seq<char>) -> bool {
    forall|k: int| 0 <= k < env.len() ==> (#[trigger] env[k]).name != name
}

/// Whether a definition introduces a name that is written at a place.
pub open spec fn introduces(def: LocalDef, name: Seq<char>, span: Span) -> bool {
    def.name.atom.text@ == name && def.span == span
}

// Units.

pub open spec fn same_unit(a: UnitRef, b: UnitRef) -> bool {
    &&& a.name.atom.text@ == b.name.atom.text@
    &&& match (a.qualifier, b.qualifier) {
        (Some(x), Some(y)) => x.text@ == y.text@,
        (None, None) => true,
        _ => false,
    }
}

pub open spec fn mirrors_unit_item(a: UnitExprItem, b: ResolvedUnitExprItem) -> bool {
    &&& a.op == b.op
    &&& a.name.span == b.name.span
    &&& same_unit(a.name.value, b.name.value.spelling)
    &&& b.power == match a.power {
        Some(power) => power,
        None => ExactRational { numerator: 1, denominator: 1 },
    }
}

/// Whether a resolved unit has the factors that are written.
pub open spec fn mirrors_unit(a: UnitExpr, b: ResolvedUnitExpr) -> bool {
    &&& a.span == b.span
    &&& a.terms@.len() == b.terms@.len()
    &&& forall|i: int| 0 <= i < a.terms@.len() ==> mirrors_unit_item(#[trigger] a.terms@[i], b.terms@[i])
}

// Patterns.

pub open spec fn mirrors_binding(a: crate::syntax::ast::PatternBinding, b: PatternBinding) -> bool {
    match (a, b) {
        (
            crate::syntax::ast::PatternBinding::Bind { field, var },
            PatternBinding::Bind { field: field_, local },
        ) => field.value.atom.text@ == field_.value.atom.text@ && field.span == field_.span && introduces(
            local,
            var.name.text@,
            var.span,
        ),
        (
            crate::syntax::ast::PatternBinding::Wildcard { field, span },
            PatternBinding::Wildcard { field: field_, span: span_ },
        ) => field.value.atom.text@ == field_.value.atom.text@ && field.span == field_.span && span == span_,
        _ => false,
    }
}

pub open spec fn mirrors_bindings(
    a: Seq<crate::syntax::ast::PatternBinding>,
    b: Seq<PatternBinding>,
) -> bool {
    a.len() == b.len() && forall|i: int| 0 <= i < a.len() ==> mirrors_binding(#[trigger] a[i], b[i])
}

/// Whether a variant is the one with a name, written at a place.
pub open spec fn is_variant(variant: IndexVariantRef, name: Seq<char>, at: Span) -> bool {
    variant.variant.variant.atom.text@ == name && variant.variant_span == at
}

pub open spec fn mirrors_pattern(a: crate::syntax::ast::MatchPattern, b: MatchPattern) -> bool {
    match (a, b) {
        (
            crate::syntax::ast::MatchPattern::Path { path, bindings, span },
            MatchPattern::Constructor { constructor, bindings: bindings_, span: span_ },
        ) => span == span_ && mirrors_bindings(bindings@, bindings_@),
        (
            crate::syntax::ast::MatchPattern::Path { path, bindings, span },
            MatchPattern::IndexLabel { variant, span: span_ },
        ) => span == span_ && bindings@.len() == 0 && is_variant(
            variant,
            idents_of(path).last(),
            path.segments@.last().span,
        ),
        (
            crate::syntax::ast::MatchPattern::Constructor { name, bindings, span },
            MatchPattern::Constructor { constructor, bindings: bindings_, span: span_ },
        ) => span == span_ && constructor.span == name.span && mirrors_bindings(bindings@, bindings_@),
        (
            crate::syntax::ast::MatchPattern::IndexLabel { index, variant, span },
            MatchPattern::IndexLabel { variant: variant_, span: span_ },
        ) => span == span_ && variant_.index_span == Some(index.span) && is_variant(
            variant_,
            variant.value.atom.text@,
            variant.span,
        ),
        _ => false,
    }
}

/// The locals that some bindings introduce, in order.
pub open spec fn bound_by(b: Seq<PatternBinding>) -> Seq<Local>
    decreases b.len(),
{
    if b.len() == 0 {
        Seq::empty()
    } else {
        match b.last() {
            PatternBinding::Bind { field, local } => bound_by(b.drop_last()).push(local_of(local)),
            PatternBinding::Wildcard { field, span } => bound_by(b.drop_last()),
        }
    }
}

pub open spec fn bound_by_pattern(p: MatchPattern) -> Seq<Local> {
    match p {
        MatchPattern::Constructor { constructor, bindings, span } => bound_by(bindings@),
        MatchPattern::IndexLabel { variant, span } => Seq::empty(),
    }
}

pub open spec fn bound_by_for(b: Seq<ForBinding>) -> Seq<Local> {
    Seq::new(b.len(), |i: int| local_of(b[i].local))
}

// Expressions.

/// Whether a resolved expression stands where an expression stands, and each of
/// its parts in the place of the same part. Names of locals are resolved in the
/// scope in which they stand.
pub open spec fn mirrors(env: Seq<Local>, e: ast::Expr, h: Expr) -> bool
    decreases e, 1nat,
{
    h.span == e.span && match h.kind {
        ExprKind::Error { children } => mirrors_failed(env, e, children@),
        _ => mirrors_kind(env, e, h.kind),
    }
}

pub open spec fn mirrors_all(env: Seq<Local>, v: Vec<ast::Expr>, w: Seq<Expr>) -> bool
    decreases v,
{
    v.len() == w.len() && forall|i: int| 0 <= i < v.len() ==> mirrors(env, #[trigger] v[i], w[i])
}

/// What a text in the arguments of a function on dates can become.
pub open spec fn is_date_text(callee: FunctionRef, text: Seq<char>, kind: ExprKind) -> bool {
    match kind {
        ExprKind::OffsetDateTimeLiteral(literal) => callee == FunctionRef::Builtin(BuiltinFnName::Datetime)
            && offset_datetime(text) == Ok::<_, Seq<char>>(literal),
        ExprKind::CivilDateTimeLiteral(literal) => (callee is Epoch || callee == FunctionRef::Builtin(
            BuiltinFnName::Datetime,
        )) && civil_datetime(text) == Ok::<_, Seq<char>>(literal),
        ExprKind::ZonedDateTimeLiteral(literal) => {
            &&& callee == FunctionRef::Builtin(BuiltinFnName::Datetime)
            &&& civil_datetime(text) == Ok::<_, Seq<char>>(literal.datetime)
            &&& zoned_datetime(literal.datetime, literal.time_zone.name@) == ZonedResult::Instant(
                literal.second,
                literal.nanosecond,
            )
        },
        ExprKind::IanaTimeZoneLiteral(zone) => callee == FunctionRef::Builtin(BuiltinFnName::Datetime)
            && time_zone_name(text) == Some(zone.name@),
        _ => false,
    }
}

/// Whether an argument of a function mirrors one that is written.
pub open spec fn mirrors_arg(env: Seq<Local>, callee: FunctionRef, e: ast::Expr, h: Expr) -> bool
    decreases e, 2nat,
{
    ||| mirrors(env, e, h)
    ||| h.span == e.span && e.kind is StringLiteral && is_date_text(callee, e.kind->StringLiteral_0@, h.kind)
}

pub open spec fn mirrors_args(env: Seq<Local>, callee: FunctionRef, v: Vec<ast::Expr>, w: Seq<Expr>) -> bool
    decreases v,
{
    v.len() == w.len() && forall|i: int| 0 <= i < v.len() ==> mirrors_arg(env, callee, #[trigger] v[i], w[i])
}

pub open spec fn mirrors_fields(env: Seq<Local>, v: Vec<ast::FieldInit>, w: Seq<FieldInit>) -> bool
    decreases v,
{
    v.len() == w.len() && forall|i: int|
        0 <= i < v.len() ==> {
            &&& (#[trigger] v[i]).name.value.atom.text@ == w[i].name.value.atom.text@
            &&& v[i].name.span == w[i].name.span
            &&& mirrors(env, v[i].value, w[i].value)
        }
}

pub open spec fn mirrors_params(env: Seq<Local>, v: Vec<ast::ParamBinding>, w: Seq<ParamBinding>) -> bool
    decreases v,
{
    v.len() == w.len() && forall|i: int|
        0 <= i < v.len() ==> (#[trigger] v[i]).name.span == w[i].target.span && mirrors(env, v[i].value, w[i].value)
}

pub open spec fn mirrors_key(env: Seq<Local>, a: ast::MapEntryKey, b: MapEntryKey) -> bool
    decreases a,
{
    match (a, b) {
        (
            ast::MapEntryKey::Expression { axis, expr },
            MapEntryKey::Expression { axis: axis_, expr: expr_ },
        ) => mirrors(env, expr, *expr_) && (axis is Explicit == axis_ is Explicit),
        (
            ast::MapEntryKey::Discrete { index, additional_index_spans, entry },
            MapEntryKey::IndexVariant(variant),
        ) => entry.value is Named && variant.index_span == Some(index.span) && is_variant(
            variant,
            entry.value->Named_0.atom.text@,
            entry.span,
        ),
        (
            ast::MapEntryKey::Discrete { index, additional_index_spans, entry },
            MapEntryKey::FinitePosition { size, position },
        ) => index.value == MapEntryIndex::Finite(size) && entry.value == IndexEntryKey::Position(position.value)
            && entry.span == position.span,
        _ => false,
    }
}

pub open spec fn mirrors_keys(env: Seq<Local>, v: Vec<ast::MapEntryKey>, w: Seq<MapEntryKey>) -> bool
    decreases v,
{
    v.len() == w.len() && forall|i: int| 0 <= i < v.len() ==> mirrors_key(env, #[trigger] v[i], w[i])
}

pub open spec fn mirrors_entry(env: Seq<Local>, a: ast::MapEntry, b: MapEntry) -> bool
    decreases a,
{
    &&& mirrors_key(env, *a.keys.first, *b.keys.first)
    &&& mirrors_keys(env, a.keys.rest, b.keys.rest@)
    &&& mirrors(env, a.value, b.value)
}

pub open spec fn mirrors_entries(env: Seq<Local>, v: Vec<ast::MapEntry>, w: Seq<MapEntry>) -> bool
    decreases v,
{
    v.len() == w.len() && forall|i: int| 0 <= i < v.len() ==> mirrors_entry(env, #[trigger] v[i], w[i])
}

pub open spec fn mirrors_index(env: Seq<Local>, a: ast::IndexArg, b: IndexArg) -> bool
    decreases a,
{
    match (a, b) {
        (ast::IndexArg::Variant { index, variant }, IndexArg::Variant(variant_)) => variant_.index_span == Some(
            index.span,
        ) && is_variant(variant_, variant.value.atom.text@, variant.span),
        (ast::IndexArg::Var(ident), IndexArg::Var(local)) => binds(
            env,
            ident.name.text@,
            local.value.id as int,
        ) && local.span == ident.span,
        (ast::IndexArg::Expr(e), IndexArg::Expr(h)) => mirrors(env, *e, *h),
        _ => false,
    }
}

pub open spec fn mirrors_indexes(env: Seq<Local>, v: Vec<ast::IndexArg>, w: Seq<IndexArg>) -> bool
    decreases v,
{
    v.len() == w.len() && forall|i: int| 0 <= i < v.len() ==> mirrors_index(env, #[trigger] v[i], w[i])
}

pub open spec fn mirrors_arm(env: Seq<Local>, a: ast::MatchArm, b: MatchArm) -> bool
    decreases a,
{
    &&& a.span == b.span
    &&& mirrors_pattern(a.pattern, b.pattern)
    &&& mirrors(env + bound_by_pattern(b.pattern), a.body, b.body)
}

pub open spec fn mirrors_arms(env: Seq<Local>, v: Vec<ast::MatchArm>, w: Seq<MatchArm>) -> bool
    decreases v,
{
    v.len() == w.len() && forall|i: int| 0 <= i < v.len() ==> mirrors_arm(env, #[trigger] v[i], w[i])
}

/// Whether a path is the name of a local, or else of something else.
pub open spec fn mirrors_path(env: Seq<Local>, path: IdentPath, kind: ExprKind) -> bool {
    let names = idents_of(path);
    match kind {
        ExprKind::LocalRef(local) => names.len() == 1 && binds(env, names[0], local.value.id as int) && local.span
            == path.segments@[0].span,
        ExprKind::ConstRef(target) => (names.len() == 1 ==> is_free(env, names[0]) && target.span
            == path.segments@[0].span) && (names.len() > 1 ==> target.span == ident_path_span(path)),
        ExprKind::TypeSystemRef(target) => names.len() == 1 && is_free(env, names[0]) && target.span
            == path.segments@[0].span,
        ExprKind::ConstructorCall { callee, generic_args, fields } => names.len() == 1 && is_free(env, names[0])
            && generic_args@.len() == 0 && fields@.len() == 0 && callee.span == path.segments@[0].span,
        ExprKind::VariantLiteral(variant) => names.len() > 1 && is_variant(
            variant,
            names.last(),
            path.segments@.last().span,
        ),
        _ => false,
    }
}

pub open spec fn mirrors_kind(env: Seq<Local>, e: ast::Expr, kind: ExprKind) -> bool
    decreases e, 0nat,
{
    match (e.kind, kind) {
        (ast::ExprKind::Number(a), ExprKind::Number(b)) => a == b,
        (ast::ExprKind::Integer(a), ExprKind::Integer(b)) => a == b,
        (ast::ExprKind::Bool(a), ExprKind::Bool(b)) => a == b,
        (ast::ExprKind::StringLiteral(a), ExprKind::StringLiteral(b)) => a@ == b@,
        (ast::ExprKind::UnresolvedRef(UnresolvedRef::Path(path)), _) => mirrors_path(env, path, kind),
        (ast::ExprKind::GraphRef(a), ExprKind::GraphRef(b)) => a.span == b.span,
        (ast::ExprKind::BinOp { op, lhs, rhs }, ExprKind::BinOp { op: op_, lhs: lhs_, rhs: rhs_ }) => op == op_
            && mirrors(env, *lhs, *lhs_) && mirrors(env, *rhs, *rhs_),
        (ast::ExprKind::UnaryOp { op, operand }, ExprKind::UnaryOp { op: op_, operand: operand_ }) => op == op_
            && mirrors(env, *operand, *operand_),
        (
            ast::ExprKind::If { condition, then_branch, else_branch },
            ExprKind::If { condition: condition_, then_branch: then_, else_branch: else_ },
        ) => mirrors(env, *condition, *condition_) && mirrors(env, *then_branch, *then_) && mirrors(
            env,
            *else_branch,
            *else_,
        ),
        (
            ast::ExprKind::QuantityLiteral { value, unit },
            ExprKind::QuantityLiteral { value: value_, unit: unit_ },
        ) => value == value_ && mirrors_unit(unit, unit_),
        (ast::ExprKind::Convert { expr, target }, ExprKind::Convert { expr: expr_, target: target_ }) => mirrors(
            env,
            *expr,
            *expr_,
        ) && mirrors_unit(target, target_),
        (
            ast::ExprKind::DisplayTimezone { expr, timezone },
            ExprKind::DisplayTimezone { expr: expr_, timezone: zone },
        ) => mirrors(env, *expr, *expr_) && time_zone_name(timezone@) == Some(zone.name@),
        (
            ast::ExprKind::FieldAccess { expr, field },
            ExprKind::FieldAccess { expr: expr_, field: field_ },
        ) => mirrors(env, *expr, *expr_) && field.value.atom.text@ == field_.value.atom.text@ && field.span
            == field_.span,
        (ast::ExprKind::FieldAccess { expr, field }, ExprKind::GraphRef(target)) => expr.kind is GraphRef
            && expr.kind->GraphRef_0.value.qualifier@.len() == 0 && target.span == merged(
            expr.kind->GraphRef_0.span,
            field.span,
        ),
        (
            ast::ExprKind::FnCall { callee, generic_args, args },
            ExprKind::FnCall { callee: callee_, args: args_ },
        ) => callee_.span == ident_path_span(callee) && mirrors_args(env, callee_.value, args, args_@),
        (
            ast::ExprKind::ConstructorCall { callee, generic_args, fields },
            ExprKind::ConstructorCall { callee: callee_, generic_args: generic_args_, fields: fields_ },
        ) => callee_.span == ident_path_span(callee) && mirrors_fields(env, fields, fields_@) && (
        generic_args_@.len() == generic_args@.len()),
        (ast::ExprKind::MapLiteral { entries }, ExprKind::MapLiteral { entries: entries_ }) => mirrors_entries(
            env,
            entries,
            entries_@,
        ),
        (ast::ExprKind::ForComp { bindings, body }, ExprKind::ForComp { bindings: bindings_, body: body_ }) => {
            &&& bindings@.len() == bindings_@.len()
            &&& forall|i: int|
                0 <= i < bindings@.len() ==> introduces(
                    (#[trigger] bindings_@[i]).local,
                    bindings@[i].var.value.atom.text@,
                    bindings@[i].var.span,
                )
            &&& mirrors(env + bound_by_for(bindings_@), *body, *body_)
        },
        (ast::ExprKind::IndexAccess { expr, args }, ExprKind::IndexAccess { expr: expr_, args: args_ }) => {
            &&& mirrors(env, *expr, *expr_)
            &&& mirrors_index(env, *args.first, *args_.first)
            &&& mirrors_indexes(env, args.rest, args_.rest@)
        },
        (
            ast::ExprKind::Scan { source, init, acc_name, val_name, body },
            ExprKind::Scan { source: source_, init: init_, acc, val, body: body_ },
        ) => {
            &&& mirrors(env, *source, *source_)
            &&& mirrors(env, *init, *init_)
            &&& introduces(acc, acc_name.value.atom.text@, acc_name.span)
            &&& introduces(val, val_name.value.atom.text@, val_name.span)
            &&& mirrors(env + seq![local_of(acc), local_of(val)], *body, *body_)
        },
        (
            ast::ExprKind::Unfold { axis, init, prev_state_name, prev_index_name, index_name, body },
            ExprKind::Unfold { recurrence, init: init_, body: body_ },
        ) => {
            &&& mirrors(env, *init, *init_)
            &&& recurrence.axis.span == axis.span
            &&& introduces(recurrence.previous_state, prev_state_name.value.atom.text@, prev_state_name.span)
            &&& introduces(recurrence.previous_index, prev_index_name.value.atom.text@, prev_index_name.span)
            &&& introduces(recurrence.current_index, index_name.value.atom.text@, index_name.span)
            &&& mirrors(
                env + seq![
                    local_of(recurrence.previous_state),
                    local_of(recurrence.previous_index),
                    local_of(recurrence.current_index),
                ],
                *body,
                *body_,
            )
        },
        (
            ast::ExprKind::KeyForm { kind, axis, arg },
            ExprKind::KeyForm { kind: kind_, axis: axis_, axis_span, arg: arg_ },
        ) => kind == kind_ && axis_span == index_expr_span(axis) && mirrors(env, *arg, *arg_),
        (ast::ExprKind::Match { scrutinee, arms }, ExprKind::Match { scrutinee: scrutinee_, arms: arms_ }) => mirrors(
            env,
            *scrutinee,
            *scrutinee_,
        ) && mirrors_arms(env, arms, arms_@),
        (
            ast::ExprKind::InlineDagRef { path, args, output },
            ExprKind::DagCall { target, args: args_, output: output_ },
        ) => target.span == path.span && output_.span == output.span && mirrors_params(env, args, args_@),
        _ => false,
    }
}

// Expressions that do not resolve.

pub open spec fn failed_fields(env: Seq<Local>, v: Vec<ast::FieldInit>, w: Seq<Expr>) -> bool
    decreases v,
{
    v.len() == w.len() && forall|i: int| 0 <= i < v.len() ==> mirrors(env, (#[trigger] v[i]).value, w[i])
}

pub open spec fn failed_params(env: Seq<Local>, v: Vec<ast::ParamBinding>, w: Seq<Expr>) -> bool
    decreases v,
{
    v.len() == w.len() && forall|i: int| 0 <= i < v.len() ==> mirrors(env, (#[trigger] v[i]).value, w[i])
}

pub open spec fn failed_arms(env: Seq<Local>, v: Vec<ast::MatchArm>, w: Seq<Expr>) -> bool
    decreases v,
{
    v.len() == w.len() && forall|i: int| 0 <= i < v.len() ==> mirrors(env, (#[trigger] v[i]).body, w[i])
}

pub open spec fn failed_indexes(env: Seq<Local>, v: Vec<ast::IndexArg>, n: nat, w: Seq<Expr>) -> bool
    decreases v, n,
{
    if n == 0 || n > v.len() {
        w.len() == 0
    } else {
        match v[n - 1] {
            ast::IndexArg::Expr(e) => w.len() > 0 && mirrors(env, *e, w.last()) && failed_indexes(
                env,
                v,
                (n - 1) as nat,
                w.drop_last(),
            ),
            _ => failed_indexes(env, v, (n - 1) as nat, w),
        }
    }
}

pub open spec fn failed_keys(env: Seq<Local>, v: Vec<ast::MapEntryKey>, n: nat, w: Seq<Expr>) -> bool
    decreases v, n,
{
    if n == 0 || n > v.len() {
        w.len() == 0
    } else {
        match v[n - 1] {
            ast::MapEntryKey::Expression { axis, expr } => w.len() > 0 && mirrors(env, expr, w.last())
                && failed_keys(env, v, (n - 1) as nat, w.drop_last()),
            _ => failed_keys(env, v, (n - 1) as nat, w),
        }
    }
}

pub open spec fn failed_entry(env: Seq<Local>, a: ast::MapEntry, w: Seq<Expr>) -> bool
    decreases a,
{
    &&& w.len() > 0
    &&& mirrors(env, a.value, w.last())
    &&& match *a.keys.first {
        ast::MapEntryKey::Expression { axis, expr } => w.len() > 1 && mirrors(env, expr, w[0]) && failed_keys(
            env,
            a.keys.rest,
            a.keys.rest.len() as nat,
            w.subrange(1, w.len() - 1),
        ),
        _ => failed_keys(env, a.keys.rest, a.keys.rest.len() as nat, w.drop_last()),
    }
}

pub open spec fn key_count(v: Vec<ast::MapEntryKey>, n: nat) -> nat
    decreases n,
{
    if n == 0 || n > v.len() {
        0
    } else {
        key_count(v, (n - 1) as nat) + (if v[n - 1] is Expression { 1nat } else { 0 })
    }
}

/// The number of expressions in a map entry.
pub open spec fn entry_count(a: ast::MapEntry) -> nat {
    1 + key_count(a.keys.rest, a.keys.rest.len() as nat) + (if *a.keys.first is Expression { 1nat } else { 0 })
}

pub open spec fn failed_entries(env: Seq<Local>, v: Vec<ast::MapEntry>, n: nat, w: Seq<Expr>) -> bool
    decreases v, n,
{
    if n == 0 || n > v.len() {
        w.len() == 0
    } else {
        let m = w.len() - entry_count(v[n - 1]);
        m >= 0 && failed_entry(env, v[n - 1], w.skip(m)) && failed_entries(env, v, (n - 1) as nat, w.take(m))
    }
}

/// Whether the expressions in one that does not resolve are those that are
/// written in it, in order. Literals, operators and conditionals always resolve,
/// and so does the name of a local.
pub open spec fn mirrors_failed(env: Seq<Local>, e: ast::Expr, w: Seq<Expr>) -> bool
    decreases e, 0nat,
{
    match e.kind {
        ast::ExprKind::GraphRef(_) => w.len() == 0,
        ast::ExprKind::QuantityLiteral { value, unit } => w.len() == 0,
        ast::ExprKind::UnresolvedRef(UnresolvedRef::Path(path)) => w.len() == 0 && (idents_of(path).len() == 1
            ==> is_free(env, idents_of(path)[0])),
        ast::ExprKind::Convert { expr, target } => w.len() == 1 && mirrors(env, *expr, w[0]),
        ast::ExprKind::DisplayTimezone { expr, timezone } => w.len() == 1 && mirrors(env, *expr, w[0])
            && time_zone_name(timezone@) is None,
        ast::ExprKind::FnCall { callee, generic_args, args } => mirrors_all(env, args, w),
        ast::ExprKind::ConstructorCall { callee, generic_args, fields } => failed_fields(env, fields, w),
        ast::ExprKind::MapLiteral { entries } => failed_entries(env, entries, entries.len() as nat, w),
        ast::ExprKind::ForComp { bindings, body } => w.len() == 1 && mirrors(env, *body, w[0]),
        ast::ExprKind::IndexAccess { expr, args } => {
            &&& w.len() > 0
            &&& mirrors(env, *expr, w[0])
            &&& match *args.first {
                ast::IndexArg::Expr(first) => w.len() > 1 && mirrors(env, *first, w[1]) && failed_indexes(
                    env,
                    args.rest,
                    args.rest.len() as nat,
                    w.skip(2),
                ),
                _ => failed_indexes(env, args.rest, args.rest.len() as nat, w.skip(1)),
            }
        },
        ast::ExprKind::Scan { source, init, acc_name, val_name, body } => w.len() == 3 && mirrors(env, *source, w[0])
            && mirrors(env, *init, w[1]) && mirrors(env, *body, w[2]),
        ast::ExprKind::Unfold { axis, init, prev_state_name, prev_index_name, index_name, body } => w.len() == 2
            && mirrors(env, *init, w[0]) && mirrors(env, *body, w[1]),
        ast::ExprKind::KeyForm { kind, axis, arg } => w.len() == 1 && mirrors(env, *arg, w[0]),
        ast::ExprKind::Match { scrutinee, arms } => w.len() > 0 && mirrors(env, *scrutinee, w[0]) && failed_arms(
            env,
            arms,
            w.skip(1),
        ),
        ast::ExprKind::InlineDagRef { path, args, output } => failed_params(env, args, w),
        _ => false,
    }
}

// Scopes.

/// Whether names resolve in some scopes as among some locals.
pub open spec fn sees(scopes: Seq<Seq<Local>>, env: Seq<Local>) -> bool {
    forall|name: Seq<char>|
        match #[trigger] local_of_name(scopes, name) {
            Some(id) => binds(env, name, id),
            None => is_free(env, name),
        }
}

proof fn lemma_local_in(scope: Seq<Local>, name: Seq<char>, i: int)
    requires
        0 <= i <= scope.len(),
    ensures
        match local_in(scope, name, i) {
            Some(id) => exists|k: int| i <= k < scope.len() && (#[trigger] scope[k]).name == name && scope[k].id == id,
            None => forall|k: int| i <= k < scope.len() ==> (#[trigger] scope[k]).name != name,
        },
    decreases scope.len() - i,
{
    if i < scope.len() {
        lemma_local_in(scope, name, i + 1);
    }
}

proof fn lemma_earlier(locals: Seq<Local>, n: int, i: int)
    requires
        0 <= i <= n < locals.len(),
        earlier(locals, n, i) is None,
    ensures
        forall|k: int| i <= k < n ==> (#[trigger] locals[k]).name != locals[n].name,
    decreases n - i,
{
    if i < n {
        lemma_earlier(locals, n, i + 1);
    }
}

proof fn lemma_distinct(locals: Seq<Local>, n: int)
    requires
        0 <= n <= locals.len(),
        first_duplicate(locals, n) is None,
    ensures
        forall|j: int, k: int|
            0 <= j < k && n <= k < locals.len() ==> (#[trigger] locals[j]).name != (#[trigger] locals[k]).name,
    decreases locals.len() - n,
{
    if n < locals.len() {
        lemma_earlier(locals, n, 0);
        lemma_distinct(locals, n + 1);
    }
}

proof fn lemma_sees(scopes: Seq<Seq<Local>>, env: Seq<Local>, locals: Seq<Local>)
    requires
        sees(scopes, env),
        first_duplicate(locals, 0) is None,
    ensures
        sees(scopes.push(locals), env + locals),
{
    let inner = scopes.push(locals);
    assert(inner.drop_last() =~= scopes);
    lemma_distinct(locals, 0);
    assert forall|name: Seq<char>|
        match #[trigger] local_of_name(inner, name) {
            Some(id) => binds(env + locals, name, id),
            None => is_free(env + locals, name),
        } by {
        lemma_local_in(locals, name, 0);
        let outer = local_of_name(scopes, name);
        match local_in(locals, name, 0) {
            Some(id) => {
                let k = choose|k: int| 0 <= k < locals.len() && (#[trigger] locals[k]).name == name && locals[k].id
                    == id;
                assert(binds_at(env + locals, name, id, env.len() + k));
            },
            None => match outer {
                Some(id) => {
                    let k = choose|k: int| #[trigger] binds_at(env, name, id, k);
                    assert forall|j: int| k < j < (env + locals).len() implies (#[trigger] (env + locals)[j]).name
                        != name by {
                        if j < env.len() {
                            assert((env + locals)[j] == env[j]);
                        } else {
                            assert((env + locals)[j] == locals[j - env.len()]);
                        }
                    }
                    assert(binds_at(env + locals, name, id, k));
                },
                None => {
                    assert forall|j: int| 0 <= j < (env + locals).len() implies (#[trigger] (env + locals)[j]).name
                        != name by {
                        if j < env.len() {
                            assert((env + locals)[j] == env[j]);
                        } else {
                            assert((env + locals)[j] == locals[j - env.len()]);
                        }
                    }
                },
            },
        }
    }
}

// Proofs.

spec fn terms(w: Seq<Expr>) -> Seq<Term> {
    Seq::new(w.len(), |i: int| w[i].to_term())
}

/// A resolved expression mirrors the expression that it comes from: each part
/// stands where it is written, literals and operators are those that are
/// written, and the name of a local is the innermost one in scope.
pub proof fn law_resolution_keeps_the_shape(c: Ctx, e: ast::Expr, st: St, env: Seq<Local>, h: Expr)
    requires
        lowered(c, e, st).0 == h.to_term(),
        sees(st.scopes, env),
    ensures
        mirrors(env, e, h),
    decreases e, 2int,
{
    reveal(ExprKind::to_term);
    match lowered_kind(c, e, st) {
        Low::Done(kind, _) => {
            lemma_kind(c, e, st, env, h.kind);
        },
        Low::Failed(error) => {
            let failed = St { errors: st.errors.push(error), ..st };
            assert(h.kind is Error);
            match h.kind {
                ExprKind::Error { children } => {
                    assert(Expr::terms(children) =~= terms(children@));
                    lemma_failed(c, e, failed, env, children@);
                    lemma_local_resolves(c, e, st, env);
                },
                _ => {},
            }
        },
    }
}

/// What always resolves does not fail.
proof fn lemma_local_resolves(c: Ctx, e: ast::Expr, st: St, env: Seq<Local>)
    requires
        sees(st.scopes, env),
        lowered_kind(c, e, st) is Failed,
    ensures
        match e.kind {
            ast::ExprKind::UnresolvedRef(UnresolvedRef::Path(path)) => idents_of(path).len() == 1 ==> is_free(
                env,
                idents_of(path)[0],
            ),
            ast::ExprKind::DisplayTimezone { expr, timezone } => time_zone_name(timezone@) is None,
            _ => true,
        },
{
    reveal(unresolved_ref);
    reveal(time_zone);
    match e.kind {
        ast::ExprKind::UnresolvedRef(UnresolvedRef::Path(path)) => {
            let found = local_of_name(st.scopes, idents_of(path)[0]);
        },
        _ => {},
    }
}

proof fn lemma_all(c: Ctx, v: Vec<ast::Expr>, n: nat, st: St, env: Seq<Local>, w: Seq<Expr>)
    requires
        n <= v.len(),
        lowered_exprs(c, v, n, st).0 == terms(w),
        sees(st.scopes, env),
    ensures
        w.len() == n,
        forall|i: int| 0 <= i < n ==> mirrors(env, (#[trigger] v[i]), w[i]),
    decreases v, n,
{
    if n > 0 {
        let (before, middle) = lowered_exprs(c, v, (n - 1) as nat, st);
        let (item, _) = lowered(c, v[n - 1], middle);
        assert(terms(w) == before.push(item));
        assert(terms(w).len() == w.len());
        assert(terms(w.drop_last()) =~= before) by {
            assert forall|i: int| 0 <= i < before.len() implies terms(w.drop_last())[i] == before[i] by {
                assert(before.push(item)[i] == before[i]);
                assert(terms(w)[i] == w[i].to_term());
            }
        }
        crate::hir::laws::lemma_exprs(c, v, (n - 1) as nat, st);
        lemma_all(c, v, (n - 1) as nat, st, env, w.drop_last());
        assert(terms(w)[n - 1] == item);
        law_resolution_keeps_the_shape(c, v[n - 1], middle, env, w[n - 1]);
    } else {
        assert(terms(w).len() == 0);
    }
}

proof fn lemma_field_values(c: Ctx, v: Vec<ast::FieldInit>, n: nat, st: St, env: Seq<Local>, w: Seq<Expr>)
    requires
        n <= v.len(),
        lowered_field_values(c, v, n, st).0 == terms(w),
        sees(st.scopes, env),
    ensures
        w.len() == n,
        forall|i: int| 0 <= i < n ==> mirrors(env, (#[trigger] v[i]).value, w[i]),
    decreases v, n,
{
    if n > 0 {
        let (before, middle) = lowered_field_values(c, v, (n - 1) as nat, st);
        let (item, _) = lowered(c, v[n - 1].value, middle);
        assert(terms(w) == before.push(item));
        assert(terms(w).len() == w.len());
        assert(terms(w.drop_last()) =~= before) by {
            assert forall|i: int| 0 <= i < before.len() implies terms(w.drop_last())[i] == before[i] by {
                assert(before.push(item)[i] == before[i]);
                assert(terms(w)[i] == w[i].to_term());
            }
        }
        crate::hir::laws::lemma_field_values(c, v, (n - 1) as nat, st);
        lemma_field_values(c, v, (n - 1) as nat, st, env, w.drop_last());
        assert(terms(w)[n - 1] == item);
        law_resolution_keeps_the_shape(c, v[n - 1].value, middle, env, w[n - 1]);
    } else {
        assert(terms(w).len() == 0);
    }
}

proof fn lemma_arm_bodies(c: Ctx, v: Vec<ast::MatchArm>, n: nat, st: St, env: Seq<Local>, w: Seq<Expr>)
    requires
        n <= v.len(),
        lowered_arm_bodies(c, v, n, st).0 == terms(w),
        sees(st.scopes, env),
    ensures
        w.len() == n,
        forall|i: int| 0 <= i < n ==> mirrors(env, (#[trigger] v[i]).body, w[i]),
    decreases v, n,
{
    if n > 0 {
        let (before, middle) = lowered_arm_bodies(c, v, (n - 1) as nat, st);
        let (item, _) = lowered(c, v[n - 1].body, middle);
        assert(terms(w) == before.push(item));
        assert(terms(w).len() == w.len());
        assert(terms(w.drop_last()) =~= before) by {
            assert forall|i: int| 0 <= i < before.len() implies terms(w.drop_last())[i] == before[i] by {
                assert(before.push(item)[i] == before[i]);
                assert(terms(w)[i] == w[i].to_term());
            }
        }
        crate::hir::laws::lemma_arm_bodies(c, v, (n - 1) as nat, st);
        lemma_arm_bodies(c, v, (n - 1) as nat, st, env, w.drop_last());
        assert(terms(w)[n - 1] == item);
        law_resolution_keeps_the_shape(c, v[n - 1].body, middle, env, w[n - 1]);
    } else {
        assert(terms(w).len() == 0);
    }
}

proof fn lemma_binding_values(c: Ctx, v: Vec<ast::ParamBinding>, n: nat, st: St, env: Seq<Local>, w: Seq<Expr>)
    requires
        n <= v.len(),
        lowered_binding_values(c, v, n, st).0 == terms(w),
        sees(st.scopes, env),
    ensures
        w.len() == n,
        forall|i: int| 0 <= i < n ==> mirrors(env, (#[trigger] v[i]).value, w[i]),
    decreases v, n,
{
    if n > 0 {
        let (before, middle) = lowered_binding_values(c, v, (n - 1) as nat, st);
        let (item, _) = lowered(c, v[n - 1].value, middle);
        assert(terms(w) == before.push(item));
        assert(terms(w).len() == w.len());
        assert(terms(w.drop_last()) =~= before) by {
            assert forall|i: int| 0 <= i < before.len() implies terms(w.drop_last())[i] == before[i] by {
                assert(before.push(item)[i] == before[i]);
                assert(terms(w)[i] == w[i].to_term());
            }
        }
        crate::hir::laws::lemma_binding_values(c, v, (n - 1) as nat, st);
        lemma_binding_values(c, v, (n - 1) as nat, st, env, w.drop_last());
        assert(terms(w)[n - 1] == item);
        law_resolution_keeps_the_shape(c, v[n - 1].value, middle, env, w[n - 1]);
    } else {
        assert(terms(w).len() == 0);
    }
}

proof fn lemma_fields(c: Ctx, v: Vec<ast::FieldInit>, n: nat, st: St, env: Seq<Local>, w: Seq<FieldInit>)
    requires
        n <= v.len(),
        w.len() == lowered_fields(c, v, n, st).0.len(),
        forall|i: int| 0 <= i < w.len() ==> lowered_fields(c, v, n, st).0[i] == (#[trigger] w[i]).to_term(),
        sees(st.scopes, env),
    ensures
        w.len() == n,
        forall|i: int|
            0 <= i < n ==> {
                &&& (#[trigger] v[i]).name.value.atom.text@ == w[i].name.value.atom.text@
                &&& v[i].name.span == w[i].name.span
                &&& mirrors(env, v[i].value, w[i].value)
            },
    decreases v, n,
{
    if n > 0 {
        let (before, middle) = lowered_fields(c, v, (n - 1) as nat, st);
        let front = w.drop_last();
        assert forall|i: int| 0 <= i < front.len() implies before[i] == (#[trigger] front[i]).to_term() by {
            assert(front[i] == w[i]);
        }
        crate::hir::laws::lemma_fields(c, v, (n - 1) as nat, st);
        lemma_fields(c, v, (n - 1) as nat, st, env, front);
        assert(lowered_fields(c, v, n, st).0[n - 1] == w[n - 1].to_term());
        law_resolution_keeps_the_shape(c, v[n - 1].value, middle, env, w[n - 1].value);
        assert forall|i: int| 0 <= i < n implies {
            &&& (#[trigger] v[i]).name.value.atom.text@ == w[i].name.value.atom.text@
            &&& v[i].name.span == w[i].name.span
            &&& mirrors(env, v[i].value, w[i].value)
        } by {
            if i < n - 1 {
                assert(front[i] == w[i]);
            }
        }
    }
}

proof fn lemma_keys(c: Ctx, v: Vec<ast::MapEntryKey>, n: nat, map_span: Span, st: St, env: Seq<Local>, w: Seq<MapEntryKey>)
    requires
        n <= v.len(),
        lowered_keys(c, v, n, map_span, st) is Done,
        w.len() == lowered_keys(c, v, n, map_span, st)->Done_0.len(),
        forall|i: int| 0 <= i < w.len() ==> lowered_keys(c, v, n, map_span, st)->Done_0[i] == (#[trigger] w[i]).to_term(),
        sees(st.scopes, env),
    ensures
        w.len() == n,
        forall|i: int| 0 <= i < n ==> mirrors_key(env, #[trigger] v[i], w[i]),
    decreases v, n,
{
    if n > 0 {
        match lowered_keys(c, v, (n - 1) as nat, map_span, st) {
            Low::Done(before, middle) => {
                let front = w.drop_last();
                assert forall|i: int| 0 <= i < front.len() implies before[i] == (#[trigger] front[i]).to_term() by {
                    assert(front[i] == w[i]);
                }
                crate::hir::laws::lemma_keys(c, v, (n - 1) as nat, map_span, st);
                lemma_keys(c, v, (n - 1) as nat, map_span, st, env, front);
                assert(lowered_keys(c, v, n, map_span, st)->Done_0[n - 1] == w[n - 1].to_term());
                lemma_key(c, v[n - 1], map_span, middle, env, w[n - 1]);
                assert forall|i: int| 0 <= i < n implies mirrors_key(env, #[trigger] v[i], w[i]) by {
                    if i < n - 1 {
                        assert(front[i] == w[i]);
                    }
                }
            },
            Low::Failed(_) => {},
        }
    }
}

proof fn lemma_entries(c: Ctx, v: Vec<ast::MapEntry>, n: nat, map_span: Span, st: St, env: Seq<Local>, w: Seq<MapEntry>)
    requires
        n <= v.len(),
        lowered_entries(c, v, n, map_span, st) is Done,
        w.len() == lowered_entries(c, v, n, map_span, st)->Done_0.len(),
        forall|i: int| 0 <= i < w.len() ==> lowered_entries(c, v, n, map_span, st)->Done_0[i] == (#[trigger] w[i]).to_term(),
        sees(st.scopes, env),
    ensures
        w.len() == n,
        forall|i: int| 0 <= i < n ==> mirrors_entry(env, #[trigger] v[i], w[i]),
    decreases v, n,
{
    if n > 0 {
        match lowered_entries(c, v, (n - 1) as nat, map_span, st) {
            Low::Done(before, middle) => {
                let front = w.drop_last();
                assert forall|i: int| 0 <= i < front.len() implies before[i] == (#[trigger] front[i]).to_term() by {
                    assert(front[i] == w[i]);
                }
                crate::hir::laws::lemma_entries(c, v, (n - 1) as nat, map_span, st);
                lemma_entries(c, v, (n - 1) as nat, map_span, st, env, front);
                assert(lowered_entries(c, v, n, map_span, st)->Done_0[n - 1] == w[n - 1].to_term());
                lemma_entry(c, v[n - 1], map_span, middle, env, w[n - 1]);
                assert forall|i: int| 0 <= i < n implies mirrors_entry(env, #[trigger] v[i], w[i]) by {
                    if i < n - 1 {
                        assert(front[i] == w[i]);
                    }
                }
            },
            Low::Failed(_) => {},
        }
    }
}

proof fn lemma_indexes(c: Ctx, v: Vec<ast::IndexArg>, n: nat, st: St, env: Seq<Local>, w: Seq<IndexArg>)
    requires
        n <= v.len(),
        index_args(c, v, n, st) is Done,
        w.len() == index_args(c, v, n, st)->Done_0.len(),
        forall|i: int| 0 <= i < w.len() ==> index_args(c, v, n, st)->Done_0[i] == (#[trigger] w[i]).to_term(),
        sees(st.scopes, env),
    ensures
        w.len() == n,
        forall|i: int| 0 <= i < n ==> mirrors_index(env, #[trigger] v[i], w[i]),
    decreases v, n,
{
    if n > 0 {
        match index_args(c, v, (n - 1) as nat, st) {
            Low::Done(before, middle) => {
                let front = w.drop_last();
                assert forall|i: int| 0 <= i < front.len() implies before[i] == (#[trigger] front[i]).to_term() by {
                    assert(front[i] == w[i]);
                }
                crate::hir::laws::lemma_index_args(c, v, (n - 1) as nat, st);
                lemma_indexes(c, v, (n - 1) as nat, st, env, front);
                assert(index_args(c, v, n, st)->Done_0[n - 1] == w[n - 1].to_term());
                lemma_index(c, v[n - 1], middle, env, w[n - 1]);
                assert forall|i: int| 0 <= i < n implies mirrors_index(env, #[trigger] v[i], w[i]) by {
                    if i < n - 1 {
                        assert(front[i] == w[i]);
                    }
                }
            },
            Low::Failed(_) => {},
        }
    }
}

proof fn lemma_arms(c: Ctx, v: Vec<ast::MatchArm>, n: nat, st: St, env: Seq<Local>, w: Seq<MatchArm>)
    requires
        n <= v.len(),
        lowered_arms(c, v, n, st) is Done,
        w.len() == lowered_arms(c, v, n, st)->Done_0.len(),
        forall|i: int| 0 <= i < w.len() ==> lowered_arms(c, v, n, st)->Done_0[i] == (#[trigger] w[i]).to_term(),
        sees(st.scopes, env),
    ensures
        w.len() == n,
        forall|i: int| 0 <= i < n ==> mirrors_arm(env, #[trigger] v[i], w[i]),
    decreases v, n,
{
    if n > 0 {
        match lowered_arms(c, v, (n - 1) as nat, st) {
            Low::Done(before, middle) => {
                let front = w.drop_last();
                assert forall|i: int| 0 <= i < front.len() implies before[i] == (#[trigger] front[i]).to_term() by {
                    assert(front[i] == w[i]);
                }
                crate::hir::laws::lemma_arms(c, v, (n - 1) as nat, st);
                lemma_arms(c, v, (n - 1) as nat, st, env, front);
                assert(lowered_arms(c, v, n, st)->Done_0[n - 1] == w[n - 1].to_term());
                lemma_arm(c, v[n - 1], middle, env, w[n - 1]);
                assert forall|i: int| 0 <= i < n implies mirrors_arm(env, #[trigger] v[i], w[i]) by {
                    if i < n - 1 {
                        assert(front[i] == w[i]);
                    }
                }
            },
            Low::Failed(_) => {},
        }
    }
}

proof fn lemma_params(c: Ctx, target: Seq<Seq<char>>, v: Vec<ast::ParamBinding>, n: nat, st: St, env: Seq<Local>, w: Seq<ParamBinding>)
    requires
        n <= v.len(),
        param_bindings(c, target, v, n, st) is Done,
        w.len() == param_bindings(c, target, v, n, st)->Done_0.len(),
        forall|i: int| 0 <= i < w.len() ==> param_bindings(c, target, v, n, st)->Done_0[i] == (#[trigger] w[i]).to_term(),
        sees(st.scopes, env),
    ensures
        w.len() == n,
        forall|i: int| 0 <= i < n ==> (#[trigger] v[i]).name.span == w[i].target.span && mirrors(env, v[i].value, w[i].value),
    decreases v, n,
{
    if n > 0 {
        match param_bindings(c, target, v, (n - 1) as nat, st) {
            Low::Done(before, middle) => {
                let front = w.drop_last();
                assert forall|i: int| 0 <= i < front.len() implies before[i] == (#[trigger] front[i]).to_term() by {
                    assert(front[i] == w[i]);
                }
                crate::hir::laws::lemma_param_bindings(c, target, v, (n - 1) as nat, st);
                lemma_params(c, target, v, (n - 1) as nat, st, env, front);
                assert(param_bindings(c, target, v, n, st)->Done_0[n - 1] == w[n - 1].to_term());
                assert(param_binding(c, target, v[n - 1], middle) is Done);
                assert(param_binding(c, target, v[n - 1], middle)->Done_0 == w[n - 1].to_term());
                law_resolution_keeps_the_shape(c, v[n - 1].value, middle, env, w[n - 1].value);
                assert forall|i: int| 0 <= i < n implies (#[trigger] v[i]).name.span == w[i].target.span && mirrors(env, v[i].value, w[i].value) by {
                    if i < n - 1 {
                        assert(front[i] == w[i]);
                    }
                }
            },
            Low::Failed(_) => {},
        }
    }
}

proof fn lemma_key(c: Ctx, key: ast::MapEntryKey, map_span: Span, st: St, env: Seq<Local>, h: MapEntryKey)
    requires
        lowered_key(c, key, map_span, st) is Done,
        lowered_key(c, key, map_span, st)->Done_0 == h.to_term(),
        sees(st.scopes, env),
    ensures
        mirrors_key(env, key, h),
    decreases key,
{
    match key {
        ast::MapEntryKey::Expression { axis, expr } => match h {
            MapEntryKey::Expression { axis: axis_, expr: expr_ } => {
                law_resolution_keeps_the_shape(c, expr, st, env, *expr_);
            },
            _ => {},
        },
        ast::MapEntryKey::Discrete { index, additional_index_spans, entry } => {
            reveal(discrete_key);
            reveal(variant_resolution);
        },
    }
}

proof fn lemma_entry(c: Ctx, entry: ast::MapEntry, map_span: Span, st: St, env: Seq<Local>, h: MapEntry)
    requires
        lowered_entry(c, entry, map_span, st) is Done,
        lowered_entry(c, entry, map_span, st)->Done_0 == h.to_term(),
        sees(st.scopes, env),
    ensures
        mirrors_entry(env, entry, h),
    decreases entry,
{
    let n = entry.keys.rest.len() as nat;
    match lowered_key(c, *entry.keys.first, map_span, st) {
        Low::Done(first, a) => match lowered_keys(c, entry.keys.rest, n, map_span, a) {
            Low::Done(rest, b) => {
                crate::hir::laws::lemma_key(c, *entry.keys.first, map_span, st);
                crate::hir::laws::lemma_keys(c, entry.keys.rest, n, map_span, a);
                lemma_prepend(first, rest, h.keys.first.to_term(), MapEntryKey::terms(h.keys.rest));
                lemma_key(c, *entry.keys.first, map_span, st, env, *h.keys.first);
                lemma_keys(c, entry.keys.rest, n, map_span, a, env, h.keys.rest@);
                law_resolution_keeps_the_shape(c, entry.value, b, env, h.value);
            },
            Low::Failed(_) => {},
        },
        Low::Failed(_) => {},
    }
}

proof fn lemma_index(c: Ctx, arg: ast::IndexArg, st: St, env: Seq<Local>, h: IndexArg)
    requires
        index_arg(c, arg, st) is Done,
        index_arg(c, arg, st)->Done_0 == h.to_term(),
        sees(st.scopes, env),
    ensures
        mirrors_index(env, arg, h),
    decreases arg,
{
    match arg {
        ast::IndexArg::Expr(e) => match h {
            IndexArg::Expr(f) => law_resolution_keeps_the_shape(c, *e, st, env, *f),
            _ => {},
        },
        ast::IndexArg::Var(ident) => {
            let found = local_of_name(st.scopes, ident.name.text@);
        },
        ast::IndexArg::Variant { index, variant } => {
            reveal(variant_parts);
            reveal(variant_resolution);
        },
    }
}

proof fn lemma_local_def(local: Local, def: LocalDef)
    requires
        local.to_term() == def.term(Spans::Kept),
    ensures
        local == local_of(def),
{
}

proof fn lemma_bindings(v: Seq<crate::syntax::ast::PatternBinding>, n: nat, st: St, w: Seq<PatternBinding>)
    requires
        n <= v.len(),
        pattern_bindings(v, n, st) is Done,
        pattern_bindings(v, n, st)->Done_0.0 == seq_terms(w, Spans::Kept),
    ensures
        w.len() == n,
        pattern_bindings(v, n, st)->Done_0.1 == bound_by(w),
        forall|i: int| 0 <= i < n ==> mirrors_binding(#[trigger] v[i], w[i]),
    decreases n,
{
    let all = seq_terms(w, Spans::Kept);
    assert(all.len() == w.len());
    if n > 0 {
        match pattern_bindings(v, (n - 1) as nat, st) {
            Low::Done((items, locals), middle) => {
                reveal(pattern_binding);
                match pattern_binding(v[n - 1], middle) {
                    Low::Done((item, more), _) => {
                        assert(all == items.push(item));
                        let front = w.drop_last();
                        assert(seq_terms(front, Spans::Kept) =~= items) by {
                            assert forall|i: int| 0 <= i < items.len() implies seq_terms(front, Spans::Kept)[i]
                                == items[i] by {
                                assert(items.push(item)[i] == items[i]);
                                assert(all[i] == w[i].term(Spans::Kept));
                            }
                        }
                        lemma_bindings(v, (n - 1) as nat, st, front);
                        assert(all[n - 1] == item);
                        assert(w[n - 1].term(Spans::Kept) == item);
                        match (v[n - 1], w[n - 1]) {
                            (
                                crate::syntax::ast::PatternBinding::Bind { field, var },
                                PatternBinding::Bind { field: field_, local },
                            ) => {
                                lemma_local_def(more[0], local);
                                assert(locals + more =~= locals.push(more[0]));
                            },
                            _ => {
                                assert(locals + more =~= locals);
                            },
                        }
                    },
                    Low::Failed(_) => {},
                }
            },
            Low::Failed(_) => {},
        }
    }
}

proof fn lemma_mirrored_pattern(c: Ctx, pattern: crate::syntax::ast::MatchPattern, st: St, h: MatchPattern)
    requires
        match_pattern(c, pattern, st) is Done,
        match_pattern(c, pattern, st)->Done_0.0 == h.term(Spans::Kept),
    ensures
        mirrors_pattern(pattern, h),
        match_pattern(c, pattern, st)->Done_0.1 == bound_by_pattern(h),
{
    reveal(match_pattern);
    reveal(path_pattern);
    reveal(constructor_pattern);
    reveal(variant_parts);
    reveal(variant_resolution);
    reveal(variant_path_resolution);
    reveal(bare_variant_resolution);
    match (pattern, h) {
        (
            crate::syntax::ast::MatchPattern::Path { path, bindings, span },
            MatchPattern::Constructor { constructor, bindings: bindings_, span: span_ },
        ) => lemma_bindings(bindings@, bindings@.len(), st, bindings_@),
        (
            crate::syntax::ast::MatchPattern::Constructor { name, bindings, span },
            MatchPattern::Constructor { constructor, bindings: bindings_, span: span_ },
        ) => lemma_bindings(bindings@, bindings@.len(), st, bindings_@),
        (
            crate::syntax::ast::MatchPattern::Path { path, bindings, span },
            MatchPattern::IndexLabel { variant, span: span_ },
        ) => {
            assert(idents_of(path).last() == path.segments@.last().name.text@);
        },
        _ => {},
    }
}

proof fn lemma_arm(c: Ctx, arm: ast::MatchArm, st: St, env: Seq<Local>, h: MatchArm)
    requires
        lowered_arm(c, arm, st) is Done,
        lowered_arm(c, arm, st)->Done_0 == h.to_term(),
        sees(st.scopes, env),
    ensures
        mirrors_arm(env, arm, h),
    decreases arm,
{
    lemma_pattern(c, arm.pattern, st);
    match match_pattern(c, arm.pattern, st) {
        Low::Done((pattern, locals), middle) => {
            lemma_mirrored_pattern(c, arm.pattern, st, h.pattern);
            lemma_body(c, arm.body, locals, middle, env, h.body);
        },
        Low::Failed(_) => {},
    }
}

proof fn lemma_body(c: Ctx, e: ast::Expr, locals: Seq<Local>, st: St, env: Seq<Local>, h: Expr)
    requires
        lowered_in(c, e, locals, st) is Done,
        lowered_in(c, e, locals, st)->Done_0 == h.to_term(),
        sees(st.scopes, env),
    ensures
        mirrors(env + locals, e, h),
    decreases e, 3int,
{
    lemma_sees(st.scopes, env, locals);
    law_resolution_keeps_the_shape(c, e, entered(st, locals), env + locals, h);
}

proof fn lemma_for(c: Ctx, v: Seq<crate::syntax::ast::ForBinding>, n: nat, st: St, w: Seq<ForBinding>)
    requires
        n <= v.len(),
        for_bindings(c, v, n, st) is Done,
        for_bindings(c, v, n, st)->Done_0.0 == seq_terms(w, Spans::Kept),
    ensures
        w.len() == n,
        for_bindings(c, v, n, st)->Done_0.1 == bound_by_for(w),
        forall|i: int|
            0 <= i < n ==> introduces((#[trigger] w[i]).local, v[i].var.value.atom.text@, v[i].var.span),
    decreases n,
{
    let all = seq_terms(w, Spans::Kept);
    assert(all.len() == w.len());
    if n > 0 {
        match for_bindings(c, v, (n - 1) as nat, st) {
            Low::Done((items, locals), middle) => {
                reveal(for_binding);
                match for_binding(c, v[n - 1], middle) {
                    Low::Done((item, local), _) => {
                        assert(all == items.push(item));
                        let front = w.drop_last();
                        assert(seq_terms(front, Spans::Kept) =~= items) by {
                            assert forall|i: int| 0 <= i < items.len() implies seq_terms(front, Spans::Kept)[i]
                                == items[i] by {
                                assert(items.push(item)[i] == items[i]);
                                assert(all[i] == w[i].term(Spans::Kept));
                            }
                        }
                        lemma_for(c, v, (n - 1) as nat, st, front);
                        assert(all[n - 1] == item);
                        assert(w[n - 1].term(Spans::Kept) == item);
                        lemma_local_def(local, w[n - 1].local);
                        assert forall|i: int| 0 <= i < n implies introduces(
                            (#[trigger] w[i]).local,
                            v[i].var.value.atom.text@,
                            v[i].var.span,
                        ) by {
                            if i < n - 1 {
                                assert(front[i] == w[i]);
                            }
                        }
                        assert(locals.push(local) =~= bound_by_for(w));
                    },
                    Low::Failed(_) => {},
                }
            },
            Low::Failed(_) => {},
        }
    } else {
        assert(bound_by_for(w) =~= Seq::empty());
    }
}

proof fn lemma_units(c: Ctx, v: Seq<UnitExprItem>, n: nat, w: Seq<ResolvedUnitExprItem>)
    requires
        n <= v.len(),
        unit_items(c, v, n) is Ok,
        unit_items(c, v, n)->Ok_0 == seq_terms(w, Spans::Kept),
    ensures
        w.len() == n,
        forall|i: int| 0 <= i < n ==> mirrors_unit_item(#[trigger] v[i], w[i]),
    decreases n,
{
    let all = seq_terms(w, Spans::Kept);
    assert(all.len() == w.len());
    if n > 0 {
        match unit_items(c, v, (n - 1) as nat) {
            Ok(items) => {
                reveal(unit_item);
                match unit_item(c, v[n - 1]) {
                    Ok(item) => {
                        assert(all == items.push(item));
                        let front = w.drop_last();
                        assert(seq_terms(front, Spans::Kept) =~= items) by {
                            assert forall|i: int| 0 <= i < items.len() implies seq_terms(front, Spans::Kept)[i]
                                == items[i] by {
                                assert(items.push(item)[i] == items[i]);
                                assert(all[i] == w[i].term(Spans::Kept));
                            }
                        }
                        lemma_units(c, v, (n - 1) as nat, front);
                        assert(all[n - 1] == item);
                        assert(w[n - 1].term(Spans::Kept) == item);
                    },
                    Err(_) => {},
                }
            },
            Err(_) => {},
        }
    }
}

proof fn lemma_unit(c: Ctx, unit: UnitExpr, h: ResolvedUnitExpr)
    requires
        unit_expr(c, unit) is Ok,
        unit_expr(c, unit)->Ok_0 == h.term(Spans::Kept),
    ensures
        mirrors_unit(unit, h),
{
    reveal(unit_expr);
    lemma_units(c, unit.terms@, unit.terms@.len(), h.terms@);
}

proof fn lemma_path(c: Ctx, path: IdentPath, st: St, env: Seq<Local>, kind: ExprKind)
    requires
        unresolved_ref(c, st, path) is Ok,
        unresolved_ref(c, st, path)->Ok_0 == kind.to_term(),
        sees(st.scopes, env),
    ensures
        mirrors_path(env, path, kind),
        !(kind is Error),
{
    reveal(ExprKind::to_term);
    reveal(unresolved_ref);
    if idents_of(path).len() == 1 {
        let found = local_of_name(st.scopes, idents_of(path)[0]);
        lemma_module_path(c, path, kind);
    } else {
        lemma_dotted_path(c, path, kind);
    }
}

proof fn lemma_module_path(c: Ctx, path: IdentPath, kind: ExprKind)
    ensures
        ({
            let found = module_ref(c, idents_of(path)[0], path.segments@[0].span);
            found is Ok && found->Ok_0 == kind.to_term() ==> match kind {
                ExprKind::ConstRef(target) => target.span == path.segments@[0].span,
                ExprKind::TypeSystemRef(target) => target.span == path.segments@[0].span,
                ExprKind::ConstructorCall { callee, generic_args, fields } => generic_args@.len() == 0
                    && fields@.len() == 0 && callee.span == path.segments@[0].span,
                _ => false,
            }
        }),
{
    reveal(ExprKind::to_term);
    reveal(module_ref);
    match kind {
        ExprKind::ConstructorCall { callee, generic_args, fields } => {
            assert(seq_terms(generic_args@, Spans::Kept).len() == generic_args@.len());
            assert(FieldInit::terms(fields).len() == fields@.len());
        },
        _ => {},
    }
}

proof fn lemma_dotted_path(c: Ctx, path: IdentPath, kind: ExprKind)
    requires
        idents_of(path).len() > 1,
        dotted_ref(c, path) is Ok,
        dotted_ref(c, path)->Ok_0 == kind.to_term(),
    ensures
        match kind {
            ExprKind::ConstRef(target) => target.span == ident_path_span(path),
            ExprKind::VariantLiteral(variant) => is_variant(
                variant,
                idents_of(path).last(),
                path.segments@.last().span,
            ),
            _ => false,
        },
{
    reveal(ExprKind::to_term);
    reveal(dotted_ref);
    reveal(variant_parts);
    reveal(variant_resolution);
    reveal(variant_path_resolution);
}

proof fn lemma_args(c: Ctx, f: Fun, callee: FunctionRef, v: Vec<ast::Expr>, n: nat, st: St, env: Seq<Local>, w: Seq<Expr>)
    requires
        n <= v.len(),
        f.to_term() == callee.term(Spans::Kept),
        function_args_upto(c, f, v, n, st) is Done,
        function_args_upto(c, f, v, n, st)->Done_0 == terms(w),
        sees(st.scopes, env),
    ensures
        w.len() == n,
        forall|i: int| 0 <= i < n ==> mirrors_arg(env, callee, #[trigger] v[i], w[i]),
    decreases v, n,
{
    assert(terms(w).len() == w.len());
    if n > 0 {
        match function_args_upto(c, f, v, (n - 1) as nat, st) {
            Low::Done(before, middle) => match function_arg(c, f, v.len() == 1, v[n - 1], middle) {
                Low::Done(item, _) => {
                    assert(terms(w) == before.push(item));
                    assert(terms(w.drop_last()) =~= before) by {
                        assert forall|i: int| 0 <= i < before.len() implies terms(w.drop_last())[i] == before[i] by {
                            assert(before.push(item)[i] == before[i]);
                            assert(terms(w)[i] == w[i].to_term());
                        }
                    }
                    crate::hir::laws::lemma_function_args(c, f, v, (n - 1) as nat, st);
                    lemma_args(c, f, callee, v, (n - 1) as nat, st, env, w.drop_last());
                    assert(terms(w)[n - 1] == item);
                    lemma_one_arg(c, f, callee, v.len() == 1, v[n - 1], middle, env, w[n - 1]);
                },
                Low::Failed(_) => {},
            },
            Low::Failed(_) => {},
        }
    }
}

proof fn lemma_one_arg(c: Ctx, f: Fun, callee: FunctionRef, only: bool, e: ast::Expr, st: St, env: Seq<Local>, h: Expr)
    requires
        f.to_term() == callee.term(Spans::Kept),
        function_arg(c, f, only, e, st) is Done,
        function_arg(c, f, only, e, st)->Done_0 == h.to_term(),
        sees(st.scopes, env),
    ensures
        mirrors_arg(env, callee, e, h),
    decreases e, 3int,
{
    reveal(civil_literal);
    reveal(ExprKind::to_term);
    if lowered(c, e, st).0 == h.to_term() {
        law_resolution_keeps_the_shape(c, e, st, env, h);
    }
}

proof fn lemma_zone(c: Ctx, e: ast::Expr, st: St, env: Seq<Local>, h: Expr)
    requires
        zone_arg(c, e, st) is Done,
        zone_arg(c, e, st)->Done_0.0 == h.to_term(),
        sees(st.scopes, env),
    ensures
        mirrors_arg(env, FunctionRef::Builtin(BuiltinFnName::Datetime), e, h),
        zone_arg(c, e, st)->Done_0.1 is Some ==> h.kind is IanaTimeZoneLiteral,
    decreases e, 3int,
{
    reveal(time_zone);
    reveal(ExprKind::to_term);
    match e.kind {
        ast::ExprKind::StringLiteral(_) => {},
        _ => law_resolution_keeps_the_shape(c, e, st, env, h),
    }
}

proof fn lemma_date(c: Ctx, e: ast::Expr, st: St, env: Seq<Local>, h: Expr)
    requires
        zoned_datetime_arg(c, e, st) is Done,
        zoned_datetime_arg(c, e, st)->Done_0.0 == h.to_term(),
        sees(st.scopes, env),
    ensures
        mirrors_arg(env, FunctionRef::Builtin(BuiltinFnName::Datetime), e, h),
    decreases e, 3int,
{
    reveal(civil_literal);
    reveal(ExprKind::to_term);
    match e.kind {
        ast::ExprKind::StringLiteral(_) => {},
        _ => law_resolution_keeps_the_shape(c, e, st, env, h),
    }
}

proof fn lemma_zoned_date(c: Ctx, e: ast::Expr, st: St, zone: Seq<char>, zone_span: Span, env: Seq<Local>, h: Expr)
    requires
        zoned_datetime_arg(c, e, st) is Done,
        zoned_datetime_arg(c, e, st)->Done_0.1 is Some,
        ({
            let t = zoned_literal(zoned_datetime_arg(c, e, st)->Done_0.1->0, zone, e.span, zone_span);
            t is Ok && h.to_term() == hir_expr(node1(Tag::HirExprZonedDateTimeLiteral, t->Ok_0), e.span)
        }),
    ensures
        mirrors_arg(env, FunctionRef::Builtin(BuiltinFnName::Datetime), e, h),
{
    reveal(civil_literal);
    reveal(zoned_literal);
    reveal(ExprKind::to_term);
    match h.kind {
        ExprKind::ZonedDateTimeLiteral(found) => {
            assert(found.datetime == zoned_datetime_arg(c, e, st)->Done_0.1->0);
        },
        _ => {},
    }
}

proof fn lemma_zoned(c: Ctx, v: Vec<ast::Expr>, st: St, env: Seq<Local>, w: Seq<Expr>)
    requires
        v.len() == 2,
        zoned_args(c, v, st) is Done,
        zoned_args(c, v, st)->Done_0 == terms(w),
        sees(st.scopes, env),
    ensures
        mirrors_args(env, FunctionRef::Builtin(BuiltinFnName::Datetime), v, w),
    decreases v, 0nat,
{
    let callee = FunctionRef::Builtin(BuiltinFnName::Datetime);
    assert(terms(w).len() == w.len());
    match zoned_datetime_arg(c, v[0], st) {
        Low::Done((datetime, literal), middle) => {
            law_resolution_keeps_scopes(c, v[0], st);
            assert(middle.scopes == st.scopes);
            match zone_arg(c, v[1], middle) {
                Low::Done((zone, name), after) => {
                    assert(w.len() == 2);
                    assert(terms(w)[1] == w[1].to_term() && terms(w)[0] == w[0].to_term());
                    assert(w[1].to_term() == zone);
                    lemma_zone(c, v[1], middle, env, w[1]);
                    if literal is Some && name is Some {
                        lemma_zoned_date(c, v[0], st, name->0, v[1].span, env, w[0]);
                    } else {
                        lemma_date(c, v[0], st, env, w[0]);
                    }
                },
                Low::Failed(_) => {},
            }
        },
        Low::Failed(_) => {},
    }
}

proof fn lemma_failed_indexes(c: Ctx, v: Vec<ast::IndexArg>, n: nat, st: St, env: Seq<Local>, w: Seq<Expr>)
    requires
        n <= v.len(),
        lowered_arg_exprs(c, v, n, st).0 == terms(w),
        sees(st.scopes, env),
    ensures
        failed_indexes(env, v, n, w),
    decreases v, n,
{
    assert(terms(w).len() == w.len());
    if n > 0 {
        let (before, middle) = lowered_arg_exprs(c, v, (n - 1) as nat, st);
        let (items, _) = lowered_arg_expr(c, v[n - 1], middle);
        crate::hir::laws::lemma_arg_exprs(c, v, (n - 1) as nat, st);
        match v[n - 1] {
            ast::IndexArg::Expr(e) => {
                assert(terms(w) == before + items);
                assert(terms(w.drop_last()) =~= before) by {
                    assert forall|i: int| 0 <= i < before.len() implies terms(w.drop_last())[i] == before[i] by {
                        assert((before + items)[i] == before[i]);
                        assert(terms(w)[i] == w[i].to_term());
                    }
                }
                lemma_failed_indexes(c, v, (n - 1) as nat, st, env, w.drop_last());
                assert(terms(w)[w.len() - 1] == items[0]);
                law_resolution_keeps_the_shape(c, *e, middle, env, w.last());
            },
            _ => {
                assert(before + items =~= before);
                lemma_failed_indexes(c, v, (n - 1) as nat, st, env, w);
            },
        }
    }
}

proof fn lemma_failed_keys(c: Ctx, v: Vec<ast::MapEntryKey>, n: nat, st: St, env: Seq<Local>, w: Seq<Expr>)
    requires
        n <= v.len(),
        lowered_key_exprs(c, v, n, st).0 == terms(w),
        sees(st.scopes, env),
    ensures
        failed_keys(env, v, n, w),
        w.len() == key_count(v, n),
    decreases v, n,
{
    assert(terms(w).len() == w.len());
    if n > 0 {
        let (before, middle) = lowered_key_exprs(c, v, (n - 1) as nat, st);
        let (items, _) = lowered_key_expr(c, v[n - 1], middle);
        crate::hir::laws::lemma_key_exprs(c, v, (n - 1) as nat, st);
        match v[n - 1] {
            ast::MapEntryKey::Expression { axis, expr } => {
                assert(terms(w) == before + items);
                assert(terms(w.drop_last()) =~= before) by {
                    assert forall|i: int| 0 <= i < before.len() implies terms(w.drop_last())[i] == before[i] by {
                        assert((before + items)[i] == before[i]);
                        assert(terms(w)[i] == w[i].to_term());
                    }
                }
                lemma_failed_keys(c, v, (n - 1) as nat, st, env, w.drop_last());
                assert(terms(w)[w.len() - 1] == items[0]);
                law_resolution_keeps_the_shape(c, expr, middle, env, w.last());
            },
            _ => {
                assert(before + items =~= before);
                lemma_failed_keys(c, v, (n - 1) as nat, st, env, w);
            },
        }
    }
}

proof fn lemma_failed_entry(c: Ctx, entry: ast::MapEntry, st: St, env: Seq<Local>, w: Seq<Expr>)
    requires
        lowered_entry_exprs(c, entry, st).0 == terms(w),
        sees(st.scopes, env),
    ensures
        failed_entry(env, entry, w),
        w.len() == entry_count(entry),
    decreases entry,
{
    let n = entry.keys.rest.len() as nat;
    let (first, a) = lowered_key_expr(c, *entry.keys.first, st);
    let (rest, b) = lowered_key_exprs(c, entry.keys.rest, n, a);
    let (value, _) = lowered(c, entry.value, b);
    let all = first + rest + seq![value];
    assert(terms(w) == all);
    assert(all.len() == w.len());
    crate::hir::laws::lemma_key_expr(c, *entry.keys.first, st);
    crate::hir::laws::lemma_key_exprs(c, entry.keys.rest, n, a);
    assert(terms(w)[w.len() - 1] == value);
    law_resolution_keeps_the_shape(c, entry.value, b, env, w.last());
    match *entry.keys.first {
        ast::MapEntryKey::Expression { axis, expr } => {
            assert(first.len() == 1);
            let inner = w.subrange(1, w.len() - 1);
            assert(terms(inner) =~= rest) by {
                assert forall|i: int| 0 <= i < rest.len() implies terms(inner)[i] == rest[i] by {
                    assert(all[i + 1] == rest[i]);
                    assert(terms(w)[i + 1] == w[i + 1].to_term());
                }
            }
            lemma_failed_keys(c, entry.keys.rest, n, a, env, inner);
            assert(terms(w)[0] == all[0] && all[0] == first[0]);
            law_resolution_keeps_the_shape(c, expr, st, env, w[0]);
        },
        _ => {
            assert(first.len() == 0);
            assert(terms(w.drop_last()) =~= rest) by {
                assert forall|i: int| 0 <= i < rest.len() implies terms(w.drop_last())[i] == rest[i] by {
                    assert(all[i] == rest[i]);
                    assert(terms(w)[i] == w[i].to_term());
                }
            }
            lemma_failed_keys(c, entry.keys.rest, n, a, env, w.drop_last());
        },
    }
}

proof fn lemma_failed_entries(c: Ctx, v: Vec<ast::MapEntry>, n: nat, st: St, env: Seq<Local>, w: Seq<Expr>)
    requires
        n <= v.len(),
        lowered_entries_exprs(c, v, n, st).0 == terms(w),
        sees(st.scopes, env),
    ensures
        failed_entries(env, v, n, w),
    decreases v, n,
{
    assert(terms(w).len() == w.len());
    if n > 0 {
        let (before, middle) = lowered_entries_exprs(c, v, (n - 1) as nat, st);
        let (items, _) = lowered_entry_exprs(c, v[n - 1], middle);
        crate::hir::laws::lemma_entries_exprs(c, v, (n - 1) as nat, st);
        assert(terms(w) == before + items);
        let m = before.len() as int;
        assert(terms(w.take(m)) =~= before) by {
            assert forall|i: int| 0 <= i < m implies terms(w.take(m))[i] == before[i] by {
                assert((before + items)[i] == before[i]);
                assert(terms(w)[i] == w[i].to_term());
            }
        }
        assert(terms(w.skip(m)) =~= items) by {
            assert forall|i: int| 0 <= i < items.len() implies terms(w.skip(m))[i] == items[i] by {
                assert((before + items)[m + i] == items[i]);
                assert(terms(w)[m + i] == w[m + i].to_term());
            }
        }
        lemma_failed_entry(c, v[n - 1], middle, env, w.skip(m));
        lemma_failed_entries(c, v, (n - 1) as nat, st, env, w.take(m));
    }
}

proof fn lemma_failed(c: Ctx, e: ast::Expr, st: St, env: Seq<Local>, w: Seq<Expr>)
    requires
        error_children(c, e, st).0 == terms(w),
        sees(st.scopes, env),
    ensures
        match e.kind {
            ast::ExprKind::UnresolvedRef(_) => w.len() == 0,
            ast::ExprKind::DisplayTimezone { expr, timezone } => w.len() == 1 && mirrors(env, *expr, w[0]),
            ast::ExprKind::Number(_) => true,
            ast::ExprKind::Integer(_) => true,
            ast::ExprKind::Bool(_) => true,
            ast::ExprKind::StringLiteral(_) => true,
            ast::ExprKind::BinOp { op, lhs, rhs } => true,
            ast::ExprKind::UnaryOp { op, operand } => true,
            ast::ExprKind::If { condition, then_branch, else_branch } => true,
            ast::ExprKind::FieldAccess { expr, field } => true,
            _ => mirrors_failed(env, e, w),
        },
    decreases e, 1int,
{
    assert(terms(w).len() == w.len());
    match e.kind {
        ast::ExprKind::Convert { expr, target } => {
            assert(terms(w)[0] == w[0].to_term());
            law_resolution_keeps_the_shape(c, *expr, st, env, w[0]);
        },
        ast::ExprKind::DisplayTimezone { expr, timezone } => {
            assert(terms(w)[0] == w[0].to_term());
            law_resolution_keeps_the_shape(c, *expr, st, env, w[0]);
        },
        ast::ExprKind::ForComp { bindings, body } => {
            assert(terms(w)[0] == w[0].to_term());
            law_resolution_keeps_the_shape(c, *body, st, env, w[0]);
        },
        ast::ExprKind::KeyForm { kind, axis, arg } => {
            assert(terms(w)[0] == w[0].to_term());
            law_resolution_keeps_the_shape(c, *arg, st, env, w[0]);
        },
        ast::ExprKind::FnCall { callee, generic_args, args } => lemma_all(c, args, args.len() as nat, st, env, w),
        ast::ExprKind::ConstructorCall { callee, generic_args, fields } => lemma_field_values(
            c,
            fields,
            fields.len() as nat,
            st,
            env,
            w,
        ),
        ast::ExprKind::InlineDagRef { path, args, output } => lemma_binding_values(
            c,
            args,
            args.len() as nat,
            st,
            env,
            w,
        ),
        ast::ExprKind::MapLiteral { entries } => lemma_failed_entries(c, entries, entries.len() as nat, st, env, w),
        ast::ExprKind::Scan { source, init, acc_name, val_name, body } => {
            let a = lowered(c, *source, st).1;
            let b = lowered(c, *init, a).1;
            law_resolution_keeps_scopes(c, *source, st);
            law_resolution_keeps_scopes(c, *init, a);
            assert(terms(w)[0] == w[0].to_term() && terms(w)[1] == w[1].to_term() && terms(w)[2] == w[2].to_term());
            law_resolution_keeps_the_shape(c, *source, st, env, w[0]);
            law_resolution_keeps_the_shape(c, *init, a, env, w[1]);
            law_resolution_keeps_the_shape(c, *body, b, env, w[2]);
        },
        ast::ExprKind::Unfold { axis, init, prev_state_name, prev_index_name, index_name, body } => {
            let a = lowered(c, *init, st).1;
            law_resolution_keeps_scopes(c, *init, st);
            assert(terms(w)[0] == w[0].to_term() && terms(w)[1] == w[1].to_term());
            law_resolution_keeps_the_shape(c, *init, st, env, w[0]);
            law_resolution_keeps_the_shape(c, *body, a, env, w[1]);
        },
        ast::ExprKind::Match { scrutinee, arms } => {
            let (t, a) = lowered(c, *scrutinee, st);
            let rest = lowered_arm_bodies(c, arms, arms.len() as nat, a).0;
            law_resolution_keeps_scopes(c, *scrutinee, st);
            assert(terms(w) == seq![t] + rest);
            assert(terms(w)[0] == t);
            assert(terms(w.skip(1)) =~= rest) by {
                assert forall|i: int| 0 <= i < rest.len() implies terms(w.skip(1))[i] == rest[i] by {
                    assert((seq![t] + rest)[i + 1] == rest[i]);
                    assert(terms(w)[i + 1] == w[i + 1].to_term());
                }
            }
            law_resolution_keeps_the_shape(c, *scrutinee, st, env, w[0]);
            lemma_arm_bodies(c, arms, arms.len() as nat, a, env, w.skip(1));
        },
        ast::ExprKind::IndexAccess { expr, args } => {
            let n = args.rest.len() as nat;
            let (t, a) = lowered(c, *expr, st);
            let (first, b) = lowered_arg_expr(c, *args.first, a);
            let rest = lowered_arg_exprs(c, args.rest, n, b).0;
            law_resolution_keeps_scopes(c, *expr, st);
            crate::hir::laws::lemma_arg_expr(c, *args.first, a);
            let all = seq![t] + first + rest;
            assert(terms(w) == all);
            assert(terms(w)[0] == t);
            law_resolution_keeps_the_shape(c, *expr, st, env, w[0]);
            let k = 1 + first.len() as int;
            assert(terms(w.skip(k)) =~= rest) by {
                assert forall|i: int| 0 <= i < rest.len() implies terms(w.skip(k))[i] == rest[i] by {
                    assert(all[i + k] == rest[i]);
                    assert(terms(w)[i + k] == w[i + k].to_term());
                }
            }
            lemma_failed_indexes(c, args.rest, n, b, env, w.skip(k));
            match *args.first {
                ast::IndexArg::Expr(f) => {
                    assert(all[1] == first[0]);
                    assert(terms(w)[1] == w[1].to_term());
                    law_resolution_keeps_the_shape(c, *f, a, env, w[1]);
                },
                _ => {},
            }
        },
        _ => {},
    }
}

proof fn lemma_generic_count(c: Ctx, constraints: Seq<crate::syntax::ast::GenericConstraint>, shift: nat, v: Vec<ast::GenericArg>, n: nat)
    ensures
        n <= v.len() && generic_args_upto(c, constraints, shift, v, n) is Ok ==> generic_args_upto(
            c,
            constraints,
            shift,
            v,
            n,
        )->Ok_0.len() == n,
    decreases n,
{
    if 0 < n <= v.len() {
        lemma_generic_count(c, constraints, shift, v, (n - 1) as nat);
    }
}

proof fn lemma_constructed(
    c: Ctx,
    callee: IdentPath,
    generics: Vec<ast::GenericArg>,
    fields: Vec<ast::FieldInit>,
    span: Span,
    st: St,
    env: Seq<Local>,
    kind: ExprKind,
)
    requires
        lowered_constructor(c, callee, generics, fields, span, st) is Done,
        lowered_constructor(c, callee, generics, fields, span, st)->Done_0 == kind.to_term(),
        sees(st.scopes, env),
    ensures
        match kind {
            ExprKind::ConstructorCall { callee: callee_, generic_args, fields: fields_ } => callee_.span
                == ident_path_span(callee) && mirrors_fields(env, fields, fields_@) && generic_args@.len()
                == generics@.len(),
            _ => false,
        },
    decreases fields, fields.len() + 1,
{
    reveal(ExprKind::to_term);
    reveal(generic_args);
    match kind {
        ExprKind::ConstructorCall { callee: callee_, generic_args, fields: fields_ } => {
            assert(FieldInit::terms(fields_).len() == fields_@.len());
            assert(seq_terms(generic_args@, Spans::Kept).len() == generic_args@.len());
            lemma_fields(c, fields, fields.len() as nat, st, env, fields_@);
            match crate::hir::resolve::resolution(
                c.modules,
                crate::hir::resolve::Namespace::Constructor,
                c.owner,
                idents_of(callee),
            ) {
                Ok(target) => lemma_generic_count(
                    c,
                    constraints_of(constructor_params(c, target)),
                    0,
                    generics,
                    generics.len() as nat,
                ),
                Err(_) => {},
            }
        },
        _ => {},
    }
}

proof fn lemma_called(
    c: Ctx,
    callee: IdentPath,
    generics: Vec<ast::GenericArg>,
    args: Vec<ast::Expr>,
    st: St,
    env: Seq<Local>,
    kind: ExprKind,
)
    requires
        lowered_call(c, callee, generics, args, st) is Done,
        lowered_call(c, callee, generics, args, st)->Done_0 == kind.to_term(),
        sees(st.scopes, env),
    ensures
        match kind {
            ExprKind::FnCall { callee: callee_, args: args_ } => callee_.span == ident_path_span(callee)
                && mirrors_args(env, callee_.value, args, args_@),
            _ => false,
        },
    decreases args, args.len() + 2,
{
    reveal(ExprKind::to_term);
    let span = ident_path_span(callee);
    match function_ref(c, callee) {
        Ok(named) => match function_application(named, generics@, dotted_path(idents_of(callee)), span) {
            Ok(f) => match kind {
                ExprKind::FnCall { callee: callee_, args: args_ } => {
                    assert(Expr::terms(args_) =~= terms(args_@));
                    assert(f.to_term() == callee_.value.term(Spans::Kept));
                    if f == Fun::Builtin(BuiltinFnName::Datetime) && args.len() == 2 {
                        lemma_zoned(c, args, st, env, args_@);
                    } else {
                        lemma_args(c, f, callee_.value, args, args.len() as nat, st, env, args_@);
                    }
                },
                _ => {},
            },
            Err(_) => {},
        },
        Err(_) => {},
    }
}

proof fn lemma_dag(
    c: Ctx,
    path: crate::syntax::ast::ModulePath,
    args: Vec<ast::ParamBinding>,
    output: Spanned<crate::syntax::names::DeclName>,
    st: St,
    env: Seq<Local>,
    kind: ExprKind,
)
    requires
        dag_call(c, path, args, output, st) is Done,
        dag_call(c, path, args, output, st)->Done_0 == kind.to_term(),
        sees(st.scopes, env),
    ensures
        match kind {
            ExprKind::DagCall { target, args: args_, output: output_ } => target.span == path.span && output_.span
                == output.span && mirrors_params(env, args, args_@),
            _ => false,
        },
    decreases args, args.len() + 1,
{
    reveal(ExprKind::to_term);
    match module_resolution(c.modules, c.owner, segment_names(path.segments)) {
        Ok(target) => match kind {
            ExprKind::DagCall { target: target_, args: args_, output: output_ } => {
                assert(ParamBinding::terms(args_).len() == args_@.len());
                lemma_params(c, target, args, args.len() as nat, st, env, args_@);
            },
            _ => {},
        },
        Err(_) => {},
    }
}

proof fn lemma_operator(c: Ctx, e: ast::Expr, st: St, env: Seq<Local>, kind: ExprKind)
    requires
        e.kind is BinOp || e.kind is UnaryOp,
        lowered_kind(c, e, st) is Done,
        lowered_kind(c, e, st)->Done_0 == kind.to_term(),
        sees(st.scopes, env),
    ensures
        !(kind is Error),
        mirrors_kind(env, e, kind),
    decreases e, 0int,
{
    reveal(ExprKind::to_term);
    match (e.kind, kind) {
        (ast::ExprKind::BinOp { op, lhs, rhs }, ExprKind::BinOp { op: op_, lhs: lhs_, rhs: rhs_ }) => {
            let a = lowered(c, *lhs, st).1;
            law_resolution_keeps_scopes(c, *lhs, st);
            law_resolution_keeps_the_shape(c, *lhs, st, env, *lhs_);
            law_resolution_keeps_the_shape(c, *rhs, a, env, *rhs_);
        },
        (ast::ExprKind::UnaryOp { op, operand }, ExprKind::UnaryOp { op: op_, operand: operand_ }) => law_resolution_keeps_the_shape(
            c,
            *operand,
            st,
            env,
            *operand_,
        ),
        _ => {},
    }
}

proof fn lemma_conditional(c: Ctx, e: ast::Expr, st: St, env: Seq<Local>, kind: ExprKind)
    requires
        e.kind is If,
        lowered_kind(c, e, st) is Done,
        lowered_kind(c, e, st)->Done_0 == kind.to_term(),
        sees(st.scopes, env),
    ensures
        !(kind is Error),
        mirrors_kind(env, e, kind),
    decreases e, 0int,
{
    reveal(ExprKind::to_term);
    match (e.kind, kind) {
        (
            ast::ExprKind::If { condition, then_branch, else_branch },
            ExprKind::If { condition: condition_, then_branch: then_, else_branch: else_ },
        ) => {
            let a = lowered(c, *condition, st).1;
            let b = lowered(c, *then_branch, a).1;
            law_resolution_keeps_scopes(c, *condition, st);
            law_resolution_keeps_scopes(c, *then_branch, a);
            law_resolution_keeps_the_shape(c, *condition, st, env, *condition_);
            law_resolution_keeps_the_shape(c, *then_branch, a, env, *then_);
            law_resolution_keeps_the_shape(c, *else_branch, b, env, *else_);
        },
        _ => {},
    }
}

proof fn lemma_measured(c: Ctx, e: ast::Expr, st: St, env: Seq<Local>, kind: ExprKind)
    requires
        e.kind is QuantityLiteral || e.kind is Convert,
        lowered_kind(c, e, st) is Done,
        lowered_kind(c, e, st)->Done_0 == kind.to_term(),
        sees(st.scopes, env),
    ensures
        !(kind is Error),
        mirrors_kind(env, e, kind),
    decreases e, 0int,
{
    reveal(ExprKind::to_term);
    match (e.kind, kind) {
        (
            ast::ExprKind::QuantityLiteral { value, unit },
            ExprKind::QuantityLiteral { value: value_, unit: unit_ },
        ) => lemma_unit(c, unit, unit_),
        (ast::ExprKind::Convert { expr, target }, ExprKind::Convert { expr: expr_, target: target_ }) => {
            law_resolution_keeps_the_shape(c, *expr, st, env, *expr_);
            lemma_unit(c, target, target_);
        },
        _ => {},
    }
}

proof fn lemma_shown(c: Ctx, e: ast::Expr, st: St, env: Seq<Local>, kind: ExprKind)
    requires
        e.kind is DisplayTimezone,
        lowered_kind(c, e, st) is Done,
        lowered_kind(c, e, st)->Done_0 == kind.to_term(),
        sees(st.scopes, env),
    ensures
        !(kind is Error),
        mirrors_kind(env, e, kind),
    decreases e, 0int,
{
    reveal(ExprKind::to_term);
    reveal(time_zone);
    match (e.kind, kind) {
        (
            ast::ExprKind::DisplayTimezone { expr, timezone },
            ExprKind::DisplayTimezone { expr: expr_, timezone: zone },
        ) => law_resolution_keeps_the_shape(c, *expr, st, env, *expr_),
        _ => {},
    }
}

proof fn lemma_field(c: Ctx, e: ast::Expr, st: St, env: Seq<Local>, kind: ExprKind)
    requires
        e.kind is FieldAccess,
        lowered_kind(c, e, st) is Done,
        lowered_kind(c, e, st)->Done_0 == kind.to_term(),
        sees(st.scopes, env),
    ensures
        !(kind is Error),
        mirrors_kind(env, e, kind),
    decreases e, 0int,
{
    reveal(ExprKind::to_term);
    match (e.kind, kind) {
        (ast::ExprKind::FieldAccess { expr, field }, _) => {
            reveal(alias_field);
            match kind {
                ExprKind::FieldAccess { expr: expr_, field: field_ } => law_resolution_keeps_the_shape(c, *expr, st, env, *expr_),
                _ => {},
            }
        },
        _ => {},
    }
}

proof fn lemma_keyed(c: Ctx, e: ast::Expr, st: St, env: Seq<Local>, kind: ExprKind)
    requires
        e.kind is KeyForm,
        lowered_kind(c, e, st) is Done,
        lowered_kind(c, e, st)->Done_0 == kind.to_term(),
        sees(st.scopes, env),
    ensures
        !(kind is Error),
        mirrors_kind(env, e, kind),
    decreases e, 0int,
{
    reveal(ExprKind::to_term);
    match (e.kind, kind) {
        (
            ast::ExprKind::KeyForm { kind, axis, arg },
            ExprKind::KeyForm { kind: kind_, axis: axis_, axis_span, arg: arg_ },
        ) => law_resolution_keeps_the_shape(c, *arg, st, env, *arg_),
        _ => {},
    }
}

proof fn lemma_map(c: Ctx, e: ast::Expr, st: St, env: Seq<Local>, kind: ExprKind)
    requires
        e.kind is MapLiteral,
        lowered_kind(c, e, st) is Done,
        lowered_kind(c, e, st)->Done_0 == kind.to_term(),
        sees(st.scopes, env),
    ensures
        !(kind is Error),
        mirrors_kind(env, e, kind),
    decreases e, 0int,
{
    reveal(ExprKind::to_term);
    match (e.kind, kind) {
        (ast::ExprKind::MapLiteral { entries }, ExprKind::MapLiteral { entries: entries_ }) => {
            assert(MapEntry::terms(entries_).len() == entries_@.len());
            lemma_entries(c, entries, entries.len() as nat, e.span, st, env, entries_@);
        },
        _ => {},
    }
}

proof fn lemma_indexed(c: Ctx, e: ast::Expr, st: St, env: Seq<Local>, kind: ExprKind)
    requires
        e.kind is IndexAccess,
        lowered_kind(c, e, st) is Done,
        lowered_kind(c, e, st)->Done_0 == kind.to_term(),
        sees(st.scopes, env),
    ensures
        !(kind is Error),
        mirrors_kind(env, e, kind),
    decreases e, 0int,
{
    reveal(ExprKind::to_term);
    match (e.kind, kind) {
        (ast::ExprKind::IndexAccess { expr, args }, ExprKind::IndexAccess { expr: expr_, args: args_ }) => {
            let n = args.rest.len() as nat;
            let a = lowered(c, *expr, st).1;
            law_resolution_keeps_scopes(c, *expr, st);
            law_resolution_keeps_the_shape(c, *expr, st, env, *expr_);
            crate::hir::laws::lemma_index_arg(c, *args.first, a);
            match index_arg(c, *args.first, a) {
                Low::Done(first, b) => match index_args(c, args.rest, n, b) {
                    Low::Done(rest, _) => {
                        lemma_prepend(first, rest, args_.first.to_term(), IndexArg::terms(args_.rest));
                        assert(IndexArg::terms(args_.rest).len() == args_.rest@.len());
                        lemma_index(c, *args.first, a, env, *args_.first);
                        lemma_indexes(c, args.rest, n, b, env, args_.rest@);
                    },
                    Low::Failed(_) => {},
                },
                Low::Failed(_) => {},
            }
        },
        _ => {},
    }
}

proof fn lemma_leaf(c: Ctx, e: ast::Expr, st: St, env: Seq<Local>, kind: ExprKind)
    requires
        e.kind is Number || e.kind is Integer || e.kind is Bool || e.kind is StringLiteral || e.kind is GraphRef,
        lowered_kind(c, e, st) is Done,
        lowered_kind(c, e, st)->Done_0 == kind.to_term(),
        sees(st.scopes, env),
    ensures
        !(kind is Error),
        mirrors_kind(env, e, kind),
    decreases e, 0int,
{
    reveal(ExprKind::to_term);
}

proof fn lemma_kind(c: Ctx, e: ast::Expr, st: St, env: Seq<Local>, kind: ExprKind)
    requires
        lowered_kind(c, e, st) is Done,
        lowered_kind(c, e, st)->Done_0 == kind.to_term(),
        sees(st.scopes, env),
    ensures
        !(kind is Error),
        mirrors_kind(env, e, kind),
    decreases e, 1int,
{
    match e.kind {
        ast::ExprKind::UnresolvedRef(UnresolvedRef::Path(path)) => lemma_path(c, path, st, env, kind),
        ast::ExprKind::FnCall { callee, generic_args, args } => lemma_called(
            c,
            callee,
            generic_args,
            args,
            st,
            env,
            kind,
        ),
        ast::ExprKind::ConstructorCall { callee, generic_args, fields } => lemma_constructed(
            c,
            callee,
            generic_args,
            fields,
            e.span,
            st,
            env,
            kind,
        ),
        ast::ExprKind::InlineDagRef { path, args, output } => lemma_dag(c, path, args, output, st, env, kind),
        _ => {
            if e.kind is BinOp || e.kind is UnaryOp {
                lemma_operator(c, e, st, env, kind);
            } else if e.kind is If {
                lemma_conditional(c, e, st, env, kind);
            } else if e.kind is QuantityLiteral || e.kind is Convert {
                lemma_measured(c, e, st, env, kind);
            } else if e.kind is DisplayTimezone {
                lemma_shown(c, e, st, env, kind);
            } else if e.kind is FieldAccess {
                lemma_field(c, e, st, env, kind);
            } else if e.kind is KeyForm {
                lemma_keyed(c, e, st, env, kind);
            } else if e.kind is MapLiteral {
                lemma_map(c, e, st, env, kind);
            } else if e.kind is IndexAccess {
                lemma_indexed(c, e, st, env, kind);
            } else if e.kind is ForComp || e.kind is Scan || e.kind is Unfold || e.kind is Match {
                lemma_binding_form(c, e, st, env, kind);
            } else {
                lemma_leaf(c, e, st, env, kind);
            }
        },
    }
}

proof fn lemma_folded(names: Seq<Spanned<LocalName>>, n: nat, st: St)
    requires
        n <= names.len(),
        fold_locals(names, n, st) is Done,
    ensures
        ({
            let locals = fold_locals(names, n, st)->Done_0;
            &&& locals.len() == n
            &&& forall|i: int|
                0 <= i < n ==> (#[trigger] locals[i]).name == names[i].value.atom.text@ && locals[i].span
                    == names[i].span
        }),
    decreases n,
{
    if n > 0 {
        lemma_folded(names, (n - 1) as nat, st);
    }
}

proof fn lemma_binding_form(c: Ctx, e: ast::Expr, st: St, env: Seq<Local>, kind: ExprKind)
    requires
        e.kind is ForComp || e.kind is Scan || e.kind is Unfold || e.kind is Match,
        lowered_kind(c, e, st) is Done,
        lowered_kind(c, e, st)->Done_0 == kind.to_term(),
        sees(st.scopes, env),
    ensures
        !(kind is Error),
        mirrors_kind(env, e, kind),
    decreases e, 0int,
{
    reveal(ExprKind::to_term);
    match (e.kind, kind) {
        (ast::ExprKind::ForComp { bindings, body }, ExprKind::ForComp { bindings: bindings_, body: body_ }) => {
            lemma_for_bindings(c, bindings@, bindings@.len(), st);
            match for_bindings(c, bindings@, bindings@.len(), st) {
                Low::Done((items, locals), middle) => {
                    lemma_for(c, bindings@, bindings@.len(), st, bindings_@);
                    lemma_body(c, *body, locals, middle, env, *body_);
                },
                Low::Failed(_) => {},
            }
        },
        (
            ast::ExprKind::Scan { source, init, acc_name, val_name, body },
            ExprKind::Scan { source: source_, init: init_, acc, val, body: body_ },
        ) => {
            let a = lowered(c, *source, st).1;
            let b = lowered(c, *init, a).1;
            let names = seq![acc_name, val_name];
            law_resolution_keeps_scopes(c, *source, st);
            law_resolution_keeps_scopes(c, *init, a);
            law_resolution_keeps_the_shape(c, *source, st, env, *source_);
            law_resolution_keeps_the_shape(c, *init, a, env, *init_);
            lemma_fold_locals(names, 2, b);
            match fold_locals(names, 2, b) {
                Low::Done(locals, middle) => {
                    lemma_folded(names, 2, b);
                    lemma_body(c, *body, locals, middle, env, *body_);
                    lemma_local_def(locals[0], acc);
                    lemma_local_def(locals[1], val);
                    assert(names[0] == acc_name && names[1] == val_name);
                    assert(locals =~= seq![local_of(acc), local_of(val)]);
                },
                Low::Failed(_) => {},
            }
        },
        (
            ast::ExprKind::Unfold { axis, init, prev_state_name, prev_index_name, index_name, body },
            ExprKind::Unfold { recurrence, init: init_, body: body_ },
        ) => {
            let a = lowered(c, *init, st).1;
            let names = seq![prev_state_name, prev_index_name, index_name];
            reveal(spanned_index);
            law_resolution_keeps_scopes(c, *init, st);
            law_resolution_keeps_the_shape(c, *init, st, env, *init_);
            lemma_fold_locals(names, 3, a);
            match fold_locals(names, 3, a) {
                Low::Done(locals, middle) => {
                    lemma_folded(names, 3, a);
                    lemma_body(c, *body, locals, middle, env, *body_);
                    lemma_local_def(locals[0], recurrence.previous_state);
                    lemma_local_def(locals[1], recurrence.previous_index);
                    lemma_local_def(locals[2], recurrence.current_index);
                    assert(names[0] == prev_state_name && names[1] == prev_index_name && names[2] == index_name);
                    assert(locals =~= seq![
                        local_of(recurrence.previous_state),
                        local_of(recurrence.previous_index),
                        local_of(recurrence.current_index),
                    ]);
                },
                Low::Failed(_) => {},
            }
        },
        (ast::ExprKind::Match { scrutinee, arms }, ExprKind::Match { scrutinee: scrutinee_, arms: arms_ }) => {
            let a = lowered(c, *scrutinee, st).1;
            law_resolution_keeps_scopes(c, *scrutinee, st);
            law_resolution_keeps_the_shape(c, *scrutinee, st, env, *scrutinee_);
            assert(MatchArm::terms(arms_).len() == arms_@.len());
            lemma_arms(c, arms, arms.len() as nat, a, env, arms_@);
        },
        _ => {},
    }
}

} // verus!
