//! Resolving expressions.

use crate::desugar::desugared_ast as ast;
use crate::hir::context::{Ctx, ExprLoweringContext};
use crate::hir::datetime::DatetimeLiteralExpectation;
use crate::hir::shape::{law_resolution_keeps_the_shape, mirrors, sees};
use crate::hir::error_nodes::{error_nodes, law_one_error_per_error_node, lemma_node1, lemma_node3};
use crate::hir::error::ExprLowerError;
use crate::hir::lower_state::{
    copy_local, erred, grew, lemma_grew, lemma_grew_same, error_terms, local_of, locals_of, low_term, ExprLowerer,
};
use crate::hir::lowering::{
    civil_literal, constructor_pattern, dag_call, discrete_key, error_children, field_names, fold_locals, for_binding,
    for_bindings, function_arg, function_args, function_args_upto, index_arg, index_args, lowered, lowered_arg_expr,
    lowered_arg_exprs, lowered_arm, lowered_arm_bodies, lowered_arms, lowered_binding_values, lowered_call,
    lowered_constructor, lowered_entries, lowered_entries_exprs, lowered_entry, lowered_entry_exprs, lowered_exprs,
    lowered_field_values, lowered_fields, lowered_in, lowered_key, lowered_key_expr, lowered_key_exprs, lowered_keys,
    lowered_kind, match_pattern, param_binding, param_bindings, path_pattern, pattern_binding, pattern_bindings,
    unresolved_ref, zone_arg, zoned_args, zoned_datetime_arg, Fun, Local, Low, St,
};
use crate::hir::names::{
    check_function_arity, fun_of, kind_result, lower_function_application, lower_zoned_literal, new_variant_ref,
};
use crate::hir::resolve::{idents_of, lemma_dag_term, resolution, variant_resolution, ModuleResolveError};
use crate::hir::tree::{
    AssertBody, BuiltinFnName, CivilDateTimeLiteral, DagId, Expr, ExprKind, FieldInit, ForBinding, FunctionRef,
    IanaTimeZoneId, IndexArg, LocalDef, MapEntry, MapEntryKey, MapKeyAxis, MatchArm, MatchPattern,
    OffsetDateTimeLiteral, ParamBinding, PatternBinding, ResolvedConstructorName, UnfoldRecurrence,
};
use crate::hir::visit::owner_of;
use crate::syntax::ast::{
    IdentPath, IndexEntryKey, MapEntryIndex, MapKeyAxisSyntax, ModulePath, NamePath, UnresolvedRef,
};
use crate::syntax::names::{FieldName, LocalName, NameAtom};
use crate::syntax::deep_clone::copy_spans;
use crate::syntax::non_empty::NonEmpty;
use crate::syntax::span::{Span, Spanned};
use crate::syntax::term::{node1, node3, seq_terms, DeepClone, Spans, Syntax, Tag, Term};
use vstd::prelude::*;

verus! {

broadcast use lemma_grew;

impl<'a> ExprLowerer<'a> {
    /// Resolves an expression; a part that does not resolve becomes an error
    /// node over its sub-expressions.
    fn lower_expr(&mut self, e: &ast::Expr) -> (r: Expr)
        ensures
            lowered(old(self).ctx@, *e, old(self).state()) == (r.to_term(), final(self).state()),
            grew(*old(self), *final(self)),
            final(self).ctx == old(self).ctx,
            r.has_error() == erred(*old(self), *final(self)),
            r.span == e.span,
        decreases e, 2int,
    {
        let ghost before = *self;
        let errors = self.diagnostics.len();
        let next = self.next_local;
        let depth = self.local_scopes.len();
        match self.lower_expr_inner(e) {
            Ok(kind) => Expr { kind, span: e.span },
            Err(error) => {
                self.diagnostics.truncate(errors);
                self.next_local = next;
                self.local_scopes.truncate(depth);
                proof {
                    reveal(grew);
                    assert(self.diagnostics@ =~= before.diagnostics@);
                    assert(self.local_scopes@ =~= before.local_scopes@);
                }
                self.diagnostics.push(error);
                let ghost st = St { errors: before.state().errors.push(error.to_term()), ..before.state() };
                proof {
                    reveal(ExprLowerer::state);
                    reveal(erred);
                    assert(self.state().errors =~= st.errors);
                    assert(self.state().scopes =~= st.scopes);
                    assert(before.diagnostics@ =~= self.diagnostics@.take(before.diagnostics@.len() as int));
                    assert(before.local_scopes@ =~= self.local_scopes@.take(before.local_scopes@.len() as int));
                    assert(grew(before, *self) && erred(before, *self));
                }
                let children = self.lower_error_children(e);
                Expr { kind: ExprKind::failed(children), span: e.span }
            },
        }
    }

    fn lower_exprs(&mut self, v: &Vec<ast::Expr>) -> (r: Vec<Expr>)
        ensures
            lowered_exprs(
                old(self).ctx@,
                *v,
                v.len() as nat,
                old(self).state(),
            ) == (Expr::terms(r), final(self).state()),
            grew(*old(self), *final(self)),
            final(self).ctx == old(self).ctx,
            Expr::any_error(r) == erred(*old(self), *final(self)),
        decreases v, v.len(),
    {
        let ghost before = *self;
        let mut out: Vec<Expr> = Vec::new();
        proof {
            lemma_grew_same(before);
            assert(Expr::terms(out) =~= Seq::empty());
        }
        for i in 0..v.len()
            invariant
                lowered_exprs(before.ctx@, *v, i as nat, before.state()) == (Expr::terms(out), self.state()),
                grew(before, *self),
                self.ctx == before.ctx,
                Expr::any_error(out) == erred(before, *self),
            decreases v.len() - i,
        {
            let ghost previous = out;
            let item = self.lower_expr(&v[i]);
            out.push(item);
            proof {
                Expr::lemma_push(previous, item, out);
            }
        }
        out
    }

    fn lower_field_values(&mut self, v: &Vec<ast::FieldInit>) -> (r: Vec<Expr>)
        ensures
            lowered_field_values(
                old(self).ctx@,
                *v,
                v.len() as nat,
                old(self).state(),
            ) == (Expr::terms(r), final(self).state()),
            grew(*old(self), *final(self)),
            final(self).ctx == old(self).ctx,
            Expr::any_error(r) == erred(*old(self), *final(self)),
        decreases v, v.len(),
    {
        let ghost before = *self;
        let mut out: Vec<Expr> = Vec::new();
        proof {
            lemma_grew_same(before);
            assert(Expr::terms(out) =~= Seq::empty());
        }
        for i in 0..v.len()
            invariant
                lowered_field_values(before.ctx@, *v, i as nat, before.state()) == (Expr::terms(out), self.state()),
                grew(before, *self),
                self.ctx == before.ctx,
                Expr::any_error(out) == erred(before, *self),
            decreases v.len() - i,
        {
            let ghost previous = out;
            let item = self.lower_expr(&v[i].value);
            out.push(item);
            proof {
                Expr::lemma_push(previous, item, out);
            }
        }
        out
    }

    fn lower_arm_bodies(&mut self, v: &Vec<ast::MatchArm>) -> (r: Vec<Expr>)
        ensures
            lowered_arm_bodies(
                old(self).ctx@,
                *v,
                v.len() as nat,
                old(self).state(),
            ) == (Expr::terms(r), final(self).state()),
            grew(*old(self), *final(self)),
            final(self).ctx == old(self).ctx,
            Expr::any_error(r) == erred(*old(self), *final(self)),
        decreases v, v.len(),
    {
        let ghost before = *self;
        let mut out: Vec<Expr> = Vec::new();
        proof {
            lemma_grew_same(before);
            assert(Expr::terms(out) =~= Seq::empty());
        }
        for i in 0..v.len()
            invariant
                lowered_arm_bodies(before.ctx@, *v, i as nat, before.state()) == (Expr::terms(out), self.state()),
                grew(before, *self),
                self.ctx == before.ctx,
                Expr::any_error(out) == erred(before, *self),
            decreases v.len() - i,
        {
            let ghost previous = out;
            let item = self.lower_expr(&v[i].body);
            out.push(item);
            proof {
                Expr::lemma_push(previous, item, out);
            }
        }
        out
    }

    fn lower_binding_values(&mut self, v: &Vec<ast::ParamBinding>) -> (r: Vec<Expr>)
        ensures
            lowered_binding_values(
                old(self).ctx@,
                *v,
                v.len() as nat,
                old(self).state(),
            ) == (Expr::terms(r), final(self).state()),
            grew(*old(self), *final(self)),
            final(self).ctx == old(self).ctx,
            Expr::any_error(r) == erred(*old(self), *final(self)),
        decreases v, v.len(),
    {
        let ghost before = *self;
        let mut out: Vec<Expr> = Vec::new();
        proof {
            lemma_grew_same(before);
            assert(Expr::terms(out) =~= Seq::empty());
        }
        for i in 0..v.len()
            invariant
                lowered_binding_values(before.ctx@, *v, i as nat, before.state()) == (Expr::terms(out), self.state()),
                grew(before, *self),
                self.ctx == before.ctx,
                Expr::any_error(out) == erred(before, *self),
            decreases v.len() - i,
        {
            let ghost previous = out;
            let item = self.lower_expr(&v[i].value);
            out.push(item);
            proof {
                Expr::lemma_push(previous, item, out);
            }
        }
        out
    }

    fn lower_fields(&mut self, v: &Vec<ast::FieldInit>) -> (r: Vec<FieldInit>)
        ensures
            lowered_fields(
                old(self).ctx@,
                *v,
                v.len() as nat,
                old(self).state(),
            ) == (FieldInit::terms(r), final(self).state()),
            grew(*old(self), *final(self)),
            final(self).ctx == old(self).ctx,
            FieldInit::any_error(r) == erred(*old(self), *final(self)),
        decreases v, v.len(),
    {
        let ghost before = *self;
        let mut out: Vec<FieldInit> = Vec::new();
        proof {
            lemma_grew_same(before);
            assert(FieldInit::terms(out) =~= Seq::empty());
        }
        for i in 0..v.len()
            invariant
                lowered_fields(before.ctx@, *v, i as nat, before.state()) == (FieldInit::terms(out), self.state()),
                grew(before, *self),
                self.ctx == before.ctx,
                FieldInit::any_error(out) == erred(before, *self),
            decreases v.len() - i,
        {
            let ghost previous = out;
            let item = FieldInit { name: v[i].name.deep_clone(), value: self.lower_expr(&v[i].value) };
            out.push(item);
            proof {
                FieldInit::lemma_push(previous, item, out);
            }
        }
        out
    }

    fn push_arg_expr(&mut self, arg: &ast::IndexArg, out: &mut Vec<Expr>)
        ensures
            lowered_arg_expr(old(self).ctx@, *arg, old(self).state()).1 == final(self).state(),
            Expr::terms(*final(out)) == Expr::terms(*old(out)) + lowered_arg_expr(
                old(self).ctx@,
                *arg,
                old(self).state(),
            ).0,
            grew(*old(self), *final(self)),
            final(self).ctx == old(self).ctx,
        decreases arg, 0nat,
    {
        let ghost start = *out;
        proof {
            lemma_grew_same(*self);
        }
        match arg {
            ast::IndexArg::Expr(e) => {
                let item = self.lower_expr(e);
                out.push(item);
                assert(Expr::terms(*out) =~= Expr::terms(start) + seq![item.to_term()]);
            },
            _ => {
                assert(Expr::terms(*out) =~= Expr::terms(start) + Seq::empty());
            },
        }
    }

    fn push_arg_exprs(&mut self, v: &Vec<ast::IndexArg>, out: &mut Vec<Expr>)
        ensures
            lowered_arg_exprs(old(self).ctx@, *v, v.len() as nat, old(self).state()).1 == final(self).state(),
            Expr::terms(*final(out)) == Expr::terms(*old(out)) + lowered_arg_exprs(
                old(self).ctx@,
                *v,
                v.len() as nat,
                old(self).state(),
            ).0,
            grew(*old(self), *final(self)),
            final(self).ctx == old(self).ctx,
        decreases v, v.len(),
    {
        let ghost before = *self;
        let ghost start = Expr::terms(*out);
        proof {
            lemma_grew_same(before);
            assert(start =~= start + Seq::empty());
        }
        for i in 0..v.len()
            invariant
                lowered_arg_exprs(before.ctx@, *v, i as nat, before.state()).1 == self.state(),
                Expr::terms(*out) == start + lowered_arg_exprs(before.ctx@, *v, i as nat, before.state()).0,
                grew(before, *self),
                self.ctx == before.ctx,
            decreases v.len() - i,
        {
            let ghost middle = *self;
            let ghost items = lowered_arg_exprs(before.ctx@, *v, i as nat, before.state()).0;
            self.push_arg_expr(&v[i], out);
            proof {
                lemma_assoc(start, items, lowered_arg_expr(before.ctx@, v[i as int], middle.state()).0);
            }
        }
    }

    fn push_key_expr(&mut self, key: &ast::MapEntryKey, out: &mut Vec<Expr>)
        ensures
            lowered_key_expr(old(self).ctx@, *key, old(self).state()).1 == final(self).state(),
            Expr::terms(*final(out)) == Expr::terms(*old(out)) + lowered_key_expr(
                old(self).ctx@,
                *key,
                old(self).state(),
            ).0,
            grew(*old(self), *final(self)),
            final(self).ctx == old(self).ctx,
        decreases key, 0nat,
    {
        let ghost start = *out;
        proof {
            lemma_grew_same(*self);
        }
        match key {
            ast::MapEntryKey::Expression { axis, expr } => {
                let item = self.lower_expr(expr);
                out.push(item);
                assert(Expr::terms(*out) =~= Expr::terms(start) + seq![item.to_term()]);
            },
            _ => {
                assert(Expr::terms(*out) =~= Expr::terms(start) + Seq::empty());
            },
        }
    }

    fn push_key_exprs(&mut self, v: &Vec<ast::MapEntryKey>, out: &mut Vec<Expr>)
        ensures
            lowered_key_exprs(old(self).ctx@, *v, v.len() as nat, old(self).state()).1 == final(self).state(),
            Expr::terms(*final(out)) == Expr::terms(*old(out)) + lowered_key_exprs(
                old(self).ctx@,
                *v,
                v.len() as nat,
                old(self).state(),
            ).0,
            grew(*old(self), *final(self)),
            final(self).ctx == old(self).ctx,
        decreases v, v.len(),
    {
        let ghost before = *self;
        let ghost start = Expr::terms(*out);
        proof {
            lemma_grew_same(before);
            assert(start =~= start + Seq::empty());
        }
        for i in 0..v.len()
            invariant
                lowered_key_exprs(before.ctx@, *v, i as nat, before.state()).1 == self.state(),
                Expr::terms(*out) == start + lowered_key_exprs(before.ctx@, *v, i as nat, before.state()).0,
                grew(before, *self),
                self.ctx == before.ctx,
            decreases v.len() - i,
        {
            let ghost middle = *self;
            let ghost items = lowered_key_exprs(before.ctx@, *v, i as nat, before.state()).0;
            self.push_key_expr(&v[i], out);
            proof {
                lemma_assoc(start, items, lowered_key_expr(before.ctx@, v[i as int], middle.state()).0);
            }
        }
    }

    fn push_entry_exprs(&mut self, entry: &ast::MapEntry, out: &mut Vec<Expr>)
        ensures
            lowered_entry_exprs(old(self).ctx@, *entry, old(self).state()).1 == final(self).state(),
            Expr::terms(*final(out)) == Expr::terms(*old(out)) + lowered_entry_exprs(
                old(self).ctx@,
                *entry,
                old(self).state(),
            ).0,
            grew(*old(self), *final(self)),
            final(self).ctx == old(self).ctx,
        decreases entry, 0nat,
    {
        let ghost c = self.ctx@;
        let ghost start = Expr::terms(*out);
        let ghost first = lowered_key_expr(c, *entry.keys.first, self.state());
        self.push_key_expr(&entry.keys.first, out);
        let ghost rest = lowered_key_exprs(c, entry.keys.rest, entry.keys.rest.len() as nat, self.state());
        self.push_key_exprs(&entry.keys.rest, out);
        let ghost keys = *out;
        let item = self.lower_expr(&entry.value);
        out.push(item);
        assert(Expr::terms(*out) =~= Expr::terms(keys).push(item.to_term()));
        assert(Expr::terms(*out) =~= start + (first.0 + rest.0 + seq![item.to_term()]));
    }

    fn push_entries_exprs(&mut self, v: &Vec<ast::MapEntry>, out: &mut Vec<Expr>)
        ensures
            lowered_entries_exprs(old(self).ctx@, *v, v.len() as nat, old(self).state()).1 == final(self).state(),
            Expr::terms(*final(out)) == Expr::terms(*old(out)) + lowered_entries_exprs(
                old(self).ctx@,
                *v,
                v.len() as nat,
                old(self).state(),
            ).0,
            grew(*old(self), *final(self)),
            final(self).ctx == old(self).ctx,
        decreases v, v.len(),
    {
        let ghost before = *self;
        let ghost start = Expr::terms(*out);
        proof {
            lemma_grew_same(before);
            assert(start =~= start + Seq::empty());
        }
        for i in 0..v.len()
            invariant
                lowered_entries_exprs(before.ctx@, *v, i as nat, before.state()).1 == self.state(),
                Expr::terms(*out) == start + lowered_entries_exprs(before.ctx@, *v, i as nat, before.state()).0,
                grew(before, *self),
                self.ctx == before.ctx,
            decreases v.len() - i,
        {
            let ghost middle = *self;
            let ghost items = lowered_entries_exprs(before.ctx@, *v, i as nat, before.state()).0;
            self.push_entry_exprs(&v[i], out);
            proof {
                lemma_assoc(start, items, lowered_entry_exprs(before.ctx@, v[i as int], middle.state()).0);
            }
        }
    }

    /// Resolves the sub-expressions of an expression that does not resolve.
    fn lower_error_children(&mut self, e: &ast::Expr) -> (r: Vec<Expr>)
        ensures
            error_children(old(self).ctx@, *e, old(self).state()) == (Expr::terms(r), final(self).state()),
            grew(*old(self), *final(self)),
            final(self).ctx == old(self).ctx,
        decreases e, 1int,
    {
        let mut out: Vec<Expr> = Vec::new();
        proof {
            lemma_grew_same(*self);
            assert(Expr::terms(out) =~= Seq::empty());
        }
        match &e.kind {
            ast::ExprKind::BinOp { op, lhs, rhs } => {
                out.push(self.lower_expr(lhs));
                out.push(self.lower_expr(rhs));
                assert(Expr::terms(out) =~= seq![out[0].to_term(), out[1].to_term()]);
            },
            ast::ExprKind::UnaryOp { op, operand } => {
                out.push(self.lower_expr(operand));
                assert(Expr::terms(out) =~= seq![out[0].to_term()]);
            },
            ast::ExprKind::FnCall { callee, generic_args, args } => {
                out = self.lower_exprs(args);
            },
            ast::ExprKind::If { condition, then_branch, else_branch } => {
                out.push(self.lower_expr(condition));
                out.push(self.lower_expr(then_branch));
                out.push(self.lower_expr(else_branch));
                assert(Expr::terms(out) =~= seq![out[0].to_term(), out[1].to_term(), out[2].to_term()]);
            },
            ast::ExprKind::Convert { expr, target } => {
                out.push(self.lower_expr(expr));
                assert(Expr::terms(out) =~= seq![out[0].to_term()]);
            },
            ast::ExprKind::DisplayTimezone { expr, timezone } => {
                out.push(self.lower_expr(expr));
                assert(Expr::terms(out) =~= seq![out[0].to_term()]);
            },
            ast::ExprKind::FieldAccess { expr, field } => {
                out.push(self.lower_expr(expr));
                assert(Expr::terms(out) =~= seq![out[0].to_term()]);
            },
            ast::ExprKind::ConstructorCall { callee, generic_args, fields } => {
                out = self.lower_field_values(fields);
            },
            ast::ExprKind::MapLiteral { entries } => {
                self.push_entries_exprs(entries, &mut out);
                assert(Expr::terms(out) =~= lowered_entries_exprs(
                    old(self).ctx@,
                    *entries,
                    entries.len() as nat,
                    old(self).state(),
                ).0);
            },
            ast::ExprKind::ForComp { bindings, body } => {
                out.push(self.lower_expr(body));
                assert(Expr::terms(out) =~= seq![out[0].to_term()]);
            },
            ast::ExprKind::IndexAccess { expr, args } => {
                out.push(self.lower_expr(expr));
                assert(Expr::terms(out) =~= seq![out[0].to_term()]);
                self.push_arg_expr(&args.first, &mut out);
                self.push_arg_exprs(&args.rest, &mut out);
            },
            ast::ExprKind::Scan { source, init, acc_name, val_name, body } => {
                out.push(self.lower_expr(source));
                out.push(self.lower_expr(init));
                out.push(self.lower_expr(body));
                assert(Expr::terms(out) =~= seq![out[0].to_term(), out[1].to_term(), out[2].to_term()]);
            },
            ast::ExprKind::Unfold { axis, init, prev_state_name, prev_index_name, index_name, body } => {
                out.push(self.lower_expr(init));
                out.push(self.lower_expr(body));
                assert(Expr::terms(out) =~= seq![out[0].to_term(), out[1].to_term()]);
            },
            ast::ExprKind::KeyForm { kind, axis, arg } => {
                out.push(self.lower_expr(arg));
                assert(Expr::terms(out) =~= seq![out[0].to_term()]);
            },
            ast::ExprKind::Match { scrutinee, arms } => {
                let first = self.lower_expr(scrutinee);
                out = self.lower_arm_bodies(arms);
                let ghost rest = out;
                out.insert(0, first);
                assert(Expr::terms(out) =~= seq![first.to_term()] + Expr::terms(rest));
            },
            ast::ExprKind::InlineDagRef { path, args, output } => {
                out = self.lower_binding_values(args);
            },
            _ => {},
        }
        out
    }

    /// A date and time argument, or another one.
    fn lower_function_arg(&mut self, f: &FunctionRef, only: bool, arg: &ast::Expr) -> (r: Result<
        Expr,
        ExprLowerError,
    >)
        ensures
            low_term(r, |e: Expr| e.to_term(), *final(self)) == function_arg(
                old(self).ctx@,
                fun_of(*f),
                only,
                *arg,
                old(self).state(),
            ),
            grew(*old(self), *final(self)),
            final(self).ctx == old(self).ctx,
            r is Ok ==> r->Ok_0.has_error() == erred(*old(self), *final(self)),
        decreases arg, 3int,
    {
        proof {
            lemma_grew_same(*self);
        }
        match &arg.kind {
            ast::ExprKind::StringLiteral(text) => {
                if only {
                    match f {
                        FunctionRef::Builtin(BuiltinFnName::Datetime) => return match OffsetDateTimeLiteral::parse(
                            text,
                        ) {
                            Ok(literal) => Ok(Expr { kind: ExprKind::offset_datetime(literal), span: arg.span }),
                            Err(reason) => Err(
                                ExprLowerError::invalid_datetime_literal(
                                    DatetimeLiteralExpectation::OffsetDateTime,
                                    reason,
                                    arg.span,
                                ),
                            ),
                        },
                        FunctionRef::Epoch { scale } => return match lower_civil_datetime_literal(
                            text,
                            DatetimeLiteralExpectation::Epoch(scale.value),
                            arg.span,
                        ) {
                            Ok(literal) => Ok(Expr { kind: ExprKind::civil_datetime(literal), span: arg.span }),
                            Err(error) => Err(error),
                        },
                        _ => {},
                    }
                }
            },
            _ => {},
        }
        Ok(self.lower_expr(arg))
    }

    fn lower_plain_args(&mut self, f: &FunctionRef, v: &Vec<ast::Expr>) -> (r: Result<Vec<Expr>, ExprLowerError>)
        ensures
            low_term(r, |items: Vec<Expr>| Expr::terms(items), *final(self)) == function_args_upto(
                old(self).ctx@,
                fun_of(*f),
                *v,
                v.len() as nat,
                old(self).state(),
            ),
            grew(*old(self), *final(self)),
            final(self).ctx == old(self).ctx,
            r is Ok ==> Expr::any_error(r->Ok_0) == erred(*old(self), *final(self)),
        decreases v, v.len(),
    {
        let ghost before = *self;
        let mut out: Vec<Expr> = Vec::new();
        proof {
            lemma_grew_same(before);
            assert(Expr::terms(out) =~= Seq::empty());
        }
        for i in 0..v.len()
            invariant
                function_args_upto(
                    before.ctx@,
                    fun_of(*f),
                    *v,
                    i as nat,
                    before.state(),
                ) == Low::Done(Expr::terms(out), self.state()),
                grew(before, *self),
                self.ctx == before.ctx,
                before == *old(self),
                Expr::any_error(out) == erred(before, *self),
            decreases v.len() - i,
        {
            match self.lower_function_arg(f, v.len() == 1, &v[i]) {
                Ok(item) => {
                    let ghost previous = out;
                    out.push(item);
                    proof {
                        Expr::lemma_push(previous, item, out);
                    }
                },
                Err(error) => {
                    proof {
                        lemma_function_args_fail(before.ctx@, fun_of(*f), *v, (i + 1) as nat, before.state());
                    }
                    return Err(error);
                },
            }
        }
        Ok(out)
    }

    fn lower_zoned_datetime_arg(&mut self, arg: &ast::Expr) -> (r: Result<
        (Expr, Option<CivilDateTimeLiteral>),
        ExprLowerError,
    >)
        ensures
            low_term(
                r,
                |found: (Expr, Option<CivilDateTimeLiteral>)| (found.0.to_term(), found.1),
                *final(self),
            ) == zoned_datetime_arg(old(self).ctx@, *arg, old(self).state()),
            grew(*old(self), *final(self)),
            final(self).ctx == old(self).ctx,
            r is Ok ==> r->Ok_0.0.has_error() == erred(*old(self), *final(self)),
            r is Ok && r->Ok_0.1 is Some ==> !r->Ok_0.0.has_error(),
        decreases arg, 3int,
    {
        proof {
            lemma_grew_same(*self);
        }
        match &arg.kind {
            ast::ExprKind::StringLiteral(text) => match lower_civil_datetime_literal(
                text,
                DatetimeLiteralExpectation::ZonedCivilDateTime,
                arg.span,
            ) {
                Ok(literal) => Ok(
                    (Expr { kind: ExprKind::civil_datetime(literal), span: arg.span }, Some(literal)),
                ),
                Err(error) => Err(error),
            },
            _ => Ok((self.lower_expr(arg), None)),
        }
    }

    fn lower_zone_arg(&mut self, arg: &ast::Expr) -> (r: Result<(Expr, Option<IanaTimeZoneId>), ExprLowerError>)
        ensures
            low_term(
                r,
                |found: (Expr, Option<IanaTimeZoneId>)| (found.0.to_term(), zone_name(found.1)),
                *final(self),
            ) == zone_arg(old(self).ctx@, *arg, old(self).state()),
            grew(*old(self), *final(self)),
            final(self).ctx == old(self).ctx,
            r is Ok ==> r->Ok_0.0.has_error() == erred(*old(self), *final(self)),
        decreases arg, 3int,
    {
        proof {
            lemma_grew_same(*self);
        }
        match &arg.kind {
            ast::ExprKind::StringLiteral(text) => match self.ctx.lower_iana_time_zone_id(text, arg.span) {
                Ok(zone) => {
                    let known = IanaTimeZoneId { name: zone.name.clone() };
                    Ok((Expr { kind: ExprKind::time_zone(zone), span: arg.span }, Some(known)))
                },
                Err(error) => Err(error),
            },
            _ => Ok((self.lower_expr(arg), None)),
        }
    }

    /// The arguments of `datetime(text, zone)`.
    fn lower_zoned_datetime_args(&mut self, v: &Vec<ast::Expr>) -> (r: Result<Vec<Expr>, ExprLowerError>)
        requires
            v.len() == 2,
        ensures
            low_term(r, |items: Vec<Expr>| Expr::terms(items), *final(self)) == zoned_args(
                old(self).ctx@,
                *v,
                old(self).state(),
            ),
            grew(*old(self), *final(self)),
            final(self).ctx == old(self).ctx,
            r is Ok ==> Expr::any_error(r->Ok_0) == erred(*old(self), *final(self)),
        decreases v, 0nat,
    {
        let (datetime, literal) = match self.lower_zoned_datetime_arg(&v[0]) {
            Ok(found) => found,
            Err(error) => return Err(error),
        };
        let (zone, name) = match self.lower_zone_arg(&v[1]) {
            Ok(found) => found,
            Err(error) => return Err(error),
        };
        let first = match (literal, name) {
            (Some(literal), Some(name)) => match lower_zoned_literal(literal, &name, v[0].span, v[1].span) {
                Ok(resolved) => Expr { kind: ExprKind::zoned_datetime(resolved), span: v[0].span },
                Err(error) => return Err(error),
            },
            _ => datetime,
        };
        let mut out: Vec<Expr> = Vec::new();
        out.push(first);
        out.push(zone);
        proof {
            assert(Expr::terms(out) =~= seq![first.to_term(), zone.to_term()]);
            assert(out[0] == first && out[1] == zone);
        }
        Ok(out)
    }

    fn lower_function_args(&mut self, f: &FunctionRef, v: &Vec<ast::Expr>) -> (r: Result<Vec<Expr>, ExprLowerError>)
        ensures
            low_term(r, |items: Vec<Expr>| Expr::terms(items), *final(self)) == function_args(
                old(self).ctx@,
                fun_of(*f),
                *v,
                old(self).state(),
            ),
            grew(*old(self), *final(self)),
            final(self).ctx == old(self).ctx,
            r is Ok ==> Expr::any_error(r->Ok_0) == erred(*old(self), *final(self)),
        decreases v, v.len() + 1,
    {
        if v.len() == 2 {
            match f {
                FunctionRef::Builtin(BuiltinFnName::Datetime) => return self.lower_zoned_datetime_args(v),
                _ => {},
            }
        }
        self.lower_plain_args(f, v)
    }

    /// A function call.
    fn lower_call(
        &mut self,
        callee: &IdentPath,
        generics: &Vec<ast::GenericArg>,
        args: &Vec<ast::Expr>,
    ) -> (r: Result<
        ExprKind,
        ExprLowerError,
    >)
        ensures
            low_term(r, |kind: ExprKind| kind.to_term(), *final(self)) == lowered_call(
                old(self).ctx@,
                *callee,
                *generics,
                *args,
                old(self).state(),
            ),
            grew(*old(self), *final(self)),
            final(self).ctx == old(self).ctx,
            r is Ok ==> r->Ok_0.has_error() == erred(*old(self), *final(self)),
        decreases args, args.len() + 2,
    {
        proof {
            lemma_grew_same(*self);
        }
        let span = callee.span();
        let named = match self.ctx.lower_function_ref(callee) {
            Ok(named) => named,
            Err(error) => return Err(error),
        };
        let f = match lower_function_application(named, generics, callee.display_path(), span) {
            Ok(f) => f,
            Err(error) => return Err(error),
        };
        match check_function_arity(&f, args.len(), span) {
            Ok(_) => {},
            Err(error) => return Err(error),
        }
        match self.lower_function_args(&f, args) {
            Ok(items) => Ok(ExprKind::call(Spanned { value: f, span }, items)),
            Err(error) => Err(error),
        }
    }

    /// A call with named arguments.
    fn lower_constructor_call(
        &mut self,
        callee: &IdentPath,
        generics: &Vec<ast::GenericArg>,
        fields: &Vec<ast::FieldInit>,
        span: Span,
    ) -> (r: Result<ExprKind, ExprLowerError>)
        ensures
            low_term(r, |kind: ExprKind| kind.to_term(), *final(self)) == lowered_constructor(
                old(self).ctx@,
                *callee,
                *generics,
                *fields,
                span,
                old(self).state(),
            ),
            grew(*old(self), *final(self)),
            final(self).ctx == old(self).ctx,
            r is Ok ==> r->Ok_0.has_error() == erred(*old(self), *final(self)),
        decreases fields, fields.len() + 1,
    {
        proof {
            lemma_grew_same(*self);
        }
        let constructor = match self.ctx.resolver.resolve_constructor_ident_path(self.ctx.owner, callee) {
            Ok(constructor) => constructor,
            Err(error) => return match self.ctx.lower_function_ref(callee) {
                Ok(f) => Err(
                    ExprLowerError::named_arguments_on_function(f, names_of_fields(fields), span),
                ),
                Err(_) => Err(ExprLowerError::module_resolve(error, callee.span())),
            },
        };
        let generic_args = match self.ctx.lower_generic_args(&constructor, generics, span) {
            Ok(generic_args) => generic_args,
            Err(error) => return Err(error),
        };
        let items = self.lower_fields(fields);
        proof {
            lemma_dag_term(constructor.owner);
        }
        Ok(ExprKind::constructed(Spanned { value: constructor, span: callee.span() }, generic_args, items))
    }

    /// A map key.
    fn lower_map_entry_key(&mut self, key: &ast::MapEntryKey, map_span: Span) -> (r: Result<
        MapEntryKey,
        ExprLowerError,
    >)
        ensures
            low_term(r, |key: MapEntryKey| key.to_term(), *final(self)) == lowered_key(
                old(self).ctx@,
                *key,
                map_span,
                old(self).state(),
            ),
            grew(*old(self), *final(self)),
            final(self).ctx == old(self).ctx,
            r is Ok ==> r->Ok_0.has_error() == erred(*old(self), *final(self)),
        decreases key, 0nat,
    {
        proof {
            lemma_grew_same(*self);
        }
        match key {
            ast::MapEntryKey::Expression { axis, expr } => {
                let axis = match axis {
                    MapKeyAxisSyntax::Explicit(index) => match self.ctx.lower_index(index) {
                        Ok(index) => MapKeyAxis::Explicit(index),
                        Err(error) => return Err(error),
                    },
                    MapKeyAxisSyntax::Contextual => MapKeyAxis::Contextual,
                };
                Ok(MapEntryKey::Expression { axis, expr: Box::new(self.lower_expr(expr)) })
            },
            ast::MapEntryKey::Discrete { index, additional_index_spans, entry } => lower_discrete_key(
                &self.ctx,
                index,
                additional_index_spans,
                entry,
                map_span,
            ),
        }
    }

    fn lower_map_keys(
        &mut self,
        map_span: Span,
        v: &Vec<ast::MapEntryKey>,
    ) -> (r: Result<Vec<MapEntryKey>, ExprLowerError>)
        ensures
            low_term(
                r,
                |items: Vec<MapEntryKey>| MapEntryKey::terms(items),
                *final(self),
            ) == lowered_keys(old(self).ctx@, *v, v.len() as nat, map_span, old(self).state()),
            grew(*old(self), *final(self)),
            final(self).ctx == old(self).ctx,
            r is Ok ==> MapEntryKey::any_error(r->Ok_0) == erred(*old(self), *final(self)),
        decreases v, v.len(),
    {
        let ghost before = *self;
        let mut out: Vec<MapEntryKey> = Vec::new();
        proof {
            lemma_grew_same(before);
            assert(MapEntryKey::terms(out) =~= Seq::empty());
        }
        for i in 0..v.len()
            invariant
                lowered_keys(
                    before.ctx@,
                    *v,
                    i as nat,
                    map_span,
                    before.state(),
                ) == Low::Done(MapEntryKey::terms(out), self.state()),
                grew(before, *self),
                self.ctx == before.ctx,
                before == *old(self),
                MapEntryKey::any_error(out) == erred(before, *self),
            decreases v.len() - i,
        {
            match self.lower_map_entry_key(&v[i], map_span) {
                Ok(item) => {
                    let ghost previous = out;
                    out.push(item);
                    proof {
                        MapEntryKey::lemma_push(previous, item, out);
                    }
                },
                Err(error) => {
                    proof {
                        lemma_keys_fail(before.ctx@, *v, (i + 1) as nat, map_span, before.state());
                    }
                    return Err(error);
                },
            }
        }
        Ok(out)
    }

    fn lower_map_entry(&mut self, entry: &ast::MapEntry, map_span: Span) -> (r: Result<MapEntry, ExprLowerError>)
        ensures
            low_term(r, |entry: MapEntry| entry.to_term(), *final(self)) == lowered_entry(
                old(self).ctx@,
                *entry,
                map_span,
                old(self).state(),
            ),
            grew(*old(self), *final(self)),
            final(self).ctx == old(self).ctx,
            r is Ok ==> r->Ok_0.has_error() == erred(*old(self), *final(self)),
        decreases entry, 0nat,
    {
        let first = match self.lower_map_entry_key(&entry.keys.first, map_span) {
            Ok(first) => first,
            Err(error) => return Err(error),
        };
        let rest = match self.lower_map_keys(map_span, &entry.keys.rest) {
            Ok(rest) => rest,
            Err(error) => return Err(error),
        };
        let value = self.lower_expr(&entry.value);
        Ok(MapEntry { keys: NonEmpty::new(first, rest), value })
    }

    fn lower_map_entries(
        &mut self,
        map_span: Span,
        v: &Vec<ast::MapEntry>,
    ) -> (r: Result<Vec<MapEntry>, ExprLowerError>)
        ensures
            low_term(r, |items: Vec<MapEntry>| MapEntry::terms(items), *final(self)) == lowered_entries(
                old(self).ctx@,
                *v,
                v.len() as nat,
                map_span,
                old(self).state(),
            ),
            grew(*old(self), *final(self)),
            final(self).ctx == old(self).ctx,
            r is Ok ==> MapEntry::any_error(r->Ok_0) == erred(*old(self), *final(self)),
        decreases v, v.len(),
    {
        let ghost before = *self;
        let mut out: Vec<MapEntry> = Vec::new();
        proof {
            lemma_grew_same(before);
            assert(MapEntry::terms(out) =~= Seq::empty());
        }
        for i in 0..v.len()
            invariant
                lowered_entries(
                    before.ctx@,
                    *v,
                    i as nat,
                    map_span,
                    before.state(),
                ) == Low::Done(MapEntry::terms(out), self.state()),
                grew(before, *self),
                self.ctx == before.ctx,
                before == *old(self),
                MapEntry::any_error(out) == erred(before, *self),
            decreases v.len() - i,
        {
            match self.lower_map_entry(&v[i], map_span) {
                Ok(item) => {
                    let ghost previous = out;
                    out.push(item);
                    proof {
                        MapEntry::lemma_push(previous, item, out);
                    }
                },
                Err(error) => {
                    proof {
                        lemma_entries_fail(before.ctx@, *v, (i + 1) as nat, map_span, before.state());
                    }
                    return Err(error);
                },
            }
        }
        Ok(out)
    }

    fn lower_for_binding(&mut self, binding: &crate::syntax::ast::ForBinding) -> (r: Result<
        ForBinding,
        ExprLowerError,
    >)
        ensures
            low_term(
                r,
                |binding: ForBinding| (binding.term(Spans::Kept), local_of(binding.local)),
                *final(self),
            ) == for_binding(old(self).ctx@, *binding, old(self).state()),
            grew(*old(self), *final(self)),
            final(self).ctx == old(self).ctx,
            !erred(*old(self), *final(self)),
    {
        reveal(for_binding);
        let local = match self.allocate_local(&binding.var.value.atom, binding.var.span) {
            Ok(local) => local,
            Err(error) => return Err(error),
        };
        match self.ctx.lower_for_index(&binding.index) {
            Ok(index) => Ok(ForBinding { local, index }),
            Err(error) => Err(error),
        }
    }

    fn lower_for_bindings(&mut self, v: &Vec<crate::syntax::ast::ForBinding>) -> (r: Result<
        Vec<ForBinding>,
        ExprLowerError,
    >)
        ensures
            low_term(
                r,
                |items: Vec<ForBinding>| (seq_terms(items@, Spans::Kept), locals_of_bindings(items@)),
                *final(self),
            ) == for_bindings(old(self).ctx@, v@, v@.len(), old(self).state()),
            grew(*old(self), *final(self)),
            final(self).ctx == old(self).ctx,
            !erred(*old(self), *final(self)),
    {
        let ghost before = *self;
        let mut out: Vec<ForBinding> = Vec::new();
        proof {
            lemma_grew_same(before);
            assert(seq_terms(out@, Spans::Kept) =~= Seq::empty());
            assert(locals_of_bindings(out@) =~= Seq::empty());
        }
        for i in 0..v.len()
            invariant
                for_bindings(before.ctx@, v@, i as nat, before.state()) == Low::Done(
                    (seq_terms(out@, Spans::Kept), locals_of_bindings(out@)),
                    self.state(),
                ),
                grew(before, *self),
                self.ctx == before.ctx,
                before == *old(self),
                !erred(before, *self),
            decreases v.len() - i,
        {
            match self.lower_for_binding(&v[i]) {
                Ok(item) => {
                    let ghost previous = out;
                    out.push(item);
                    proof {
                        assert(seq_terms(out@, Spans::Kept) =~= seq_terms(previous@, Spans::Kept).push(
                            item.term(Spans::Kept),
                        ));
                        assert(locals_of_bindings(out@) =~= locals_of_bindings(previous@).push(
                            local_of(item.local),
                        ));
                    }
                },
                Err(error) => {
                    proof {
                        lemma_for_bindings_fail(before.ctx@, v@, (i + 1) as nat, before.state());
                    }
                    return Err(error);
                },
            }
        }
        Ok(out)
    }

    /// An expression inside a scope with more locals.
    fn lower_in_scope(&mut self, e: &ast::Expr, locals: Vec<LocalDef>) -> (r: Result<Expr, ExprLowerError>)
        ensures
            low_term(r, |e: Expr| e.to_term(), *final(self)) == lowered_in(
                old(self).ctx@,
                *e,
                locals_of(locals@),
                old(self).state(),
            ),
            grew(*old(self), *final(self)),
            final(self).ctx == old(self).ctx,
            r is Ok ==> r->Ok_0.has_error() == erred(*old(self), *final(self)),
        decreases e, 3int,
    {
        let ghost before = *self;
        match self.push_scope(locals) {
            Ok(_) => {},
            Err(error) => return Err(error),
        }
        let ghost middle = *self;
        let body = self.lower_expr(e);
        let ghost after = *self;
        proof {
            reveal(grew);
        }
        self.pop_scope();
        proof {
            reveal(erred);
            assert(before.diagnostics@ =~= self.diagnostics@.take(before.diagnostics@.len() as int));
            assert(before.local_scopes@ =~= self.local_scopes@.take(before.local_scopes@.len() as int));
        }
        Ok(body)
    }

    fn lower_index_arg(&mut self, arg: &ast::IndexArg) -> (r: Result<IndexArg, ExprLowerError>)
        ensures
            low_term(r, |arg: IndexArg| arg.to_term(), *final(self)) == index_arg(
                old(self).ctx@,
                *arg,
                old(self).state(),
            ),
            grew(*old(self), *final(self)),
            final(self).ctx == old(self).ctx,
            r is Ok ==> r->Ok_0.has_error() == erred(*old(self), *final(self)),
        decreases arg, 0nat,
    {
        proof {
            lemma_grew_same(*self);
        }
        match arg {
            ast::IndexArg::Variant { index, variant } => match self.ctx.resolve_index_variant_parts(
                &index.value,
                &variant.value,
                index.span,
                variant.span,
            ) {
                Ok(found) => Ok(
                    IndexArg::Variant(new_variant_ref(found, Some(index.span), Vec::new(), variant.span)),
                ),
                Err(error) => Err(error),
            },
            ast::IndexArg::Var(ident) => match self.lookup_local(&ident.name) {
                Some(id) => Ok(IndexArg::Var(Spanned { value: id, span: ident.span })),
                None => Err(ExprLowerError::unknown_local_ref(ident.name.text.clone(), ident.span)),
            },
            ast::IndexArg::Expr(e) => Ok(IndexArg::Expr(Box::new(self.lower_expr(e)))),
        }
    }

    fn lower_index_args(&mut self, v: &Vec<ast::IndexArg>) -> (r: Result<Vec<IndexArg>, ExprLowerError>)
        ensures
            low_term(
                r,
                |items: Vec<IndexArg>| IndexArg::terms(items),
                *final(self),
            ) == index_args(old(self).ctx@, *v, v.len() as nat, old(self).state()),
            grew(*old(self), *final(self)),
            final(self).ctx == old(self).ctx,
            r is Ok ==> IndexArg::any_error(r->Ok_0) == erred(*old(self), *final(self)),
        decreases v, v.len(),
    {
        let ghost before = *self;
        let mut out: Vec<IndexArg> = Vec::new();
        proof {
            lemma_grew_same(before);
            assert(IndexArg::terms(out) =~= Seq::empty());
        }
        for i in 0..v.len()
            invariant
                index_args(
                    before.ctx@,
                    *v,
                    i as nat,
                    before.state(),
                ) == Low::Done(IndexArg::terms(out), self.state()),
                grew(before, *self),
                self.ctx == before.ctx,
                before == *old(self),
                IndexArg::any_error(out) == erred(before, *self),
            decreases v.len() - i,
        {
            match self.lower_index_arg(&v[i]) {
                Ok(item) => {
                    let ghost previous = out;
                    out.push(item);
                    proof {
                        IndexArg::lemma_push(previous, item, out);
                    }
                },
                Err(error) => {
                    proof {
                        lemma_index_args_fail(before.ctx@, *v, (i + 1) as nat, before.state());
                    }
                    return Err(error);
                },
            }
        }
        Ok(out)
    }

    fn lower_pattern_binding(&mut self, binding: &crate::syntax::ast::PatternBinding) -> (r: Result<
        PatternBinding,
        ExprLowerError,
    >)
        ensures
            low_term(
                r,
                |binding: PatternBinding| (binding.term(Spans::Kept), locals_bound_by(binding)),
                *final(self),
            ) == pattern_binding(*binding, old(self).state()),
            grew(*old(self), *final(self)),
            final(self).ctx == old(self).ctx,
            !erred(*old(self), *final(self)),
    {
        reveal(pattern_binding);
        proof {
            lemma_grew_same(*self);
        }
        match binding {
            crate::syntax::ast::PatternBinding::Bind { field, var } => match self.allocate_local(
                &var.name,
                var.span,
            ) {
                Ok(local) => Ok(PatternBinding::Bind { field: field.deep_clone(), local }),
                Err(error) => Err(error),
            },
            crate::syntax::ast::PatternBinding::Wildcard { field, span } => Ok(
                PatternBinding::Wildcard { field: field.deep_clone(), span: *span },
            ),
        }
    }

    fn lower_pattern_bindings(&mut self, v: &Vec<crate::syntax::ast::PatternBinding>) -> (r: Result<
        Vec<PatternBinding>,
        ExprLowerError,
    >)
        ensures
            low_term(
                r,
                |items: Vec<PatternBinding>| (seq_terms(items@, Spans::Kept), locals_bound(items@, items@.len())),
                *final(self),
            ) == pattern_bindings(v@, v@.len(), old(self).state()),
            grew(*old(self), *final(self)),
            final(self).ctx == old(self).ctx,
            !erred(*old(self), *final(self)),
    {
        let ghost before = *self;
        let mut out: Vec<PatternBinding> = Vec::new();
        proof {
            lemma_grew_same(before);
            assert(seq_terms(out@, Spans::Kept) =~= Seq::empty());
        }
        for i in 0..v.len()
            invariant
                out@.len() == i,
                pattern_bindings(v@, i as nat, before.state()) == Low::Done(
                    (seq_terms(out@, Spans::Kept), locals_bound(out@, i as nat)),
                    self.state(),
                ),
                grew(before, *self),
                self.ctx == before.ctx,
                before == *old(self),
                !erred(before, *self),
            decreases v.len() - i,
        {
            match self.lower_pattern_binding(&v[i]) {
                Ok(item) => {
                    let ghost previous = out@;
                    out.push(item);
                    proof {
                        assert(seq_terms(out@, Spans::Kept) =~= seq_terms(previous, Spans::Kept).push(
                            item.term(Spans::Kept),
                        ));
                        lemma_locals_bound_push(previous, item, i as nat);
                    }
                },
                Err(error) => {
                    proof {
                        lemma_pattern_bindings_fail(v@, (i + 1) as nat, before.state());
                    }
                    return Err(error);
                },
            }
        }
        Ok(out)
    }

    fn lower_constructor_pattern(
        &mut self,
        constructor: ResolvedConstructorName,
        at: Span,
        bindings: &Vec<crate::syntax::ast::PatternBinding>,
        span: Span,
    ) -> (r: Result<MatchPattern, ExprLowerError>)
        ensures
            low_term(
                r,
                |p: MatchPattern| (p.term(Spans::Kept), pattern_locals(p)),
                *final(self),
            ) == constructor_pattern(
                constructor.term(Spans::Kept),
                at,
                bindings@,
                span,
                old(self).state(),
            ),
            grew(*old(self), *final(self)),
            final(self).ctx == old(self).ctx,
            !erred(*old(self), *final(self)),
    {
        reveal(constructor_pattern);
        match self.lower_pattern_bindings(bindings) {
            Ok(items) => Ok(
                MatchPattern::Constructor {
                    constructor: Spanned { value: constructor, span: at },
                    bindings: items,
                    span,
                },
            ),
            Err(error) => Err(error),
        }
    }

    fn lower_path_pattern(
        &mut self,
        path: &IdentPath,
        bindings: &Vec<crate::syntax::ast::PatternBinding>,
        span: Span,
    ) -> (r: Result<MatchPattern, ExprLowerError>)
        ensures
            low_term(r, |p: MatchPattern| (p.term(Spans::Kept), pattern_locals(p)), *final(self)) == path_pattern(
                old(self).ctx@,
                *path,
                bindings@,
                span,
                old(self).state(),
            ),
            grew(*old(self), *final(self)),
            final(self).ctx == old(self).ctx,
            !erred(*old(self), *final(self)),
    {
        reveal(path_pattern);
        proof {
            lemma_grew_same(*self);
        }
        let names = path.to_name_path();
        if bindings.len() == 0 {
            match self.ctx.resolver.resolve_index_variant_path(self.ctx.owner, &names) {
                Ok(variant) => return Ok(
                    MatchPattern::IndexLabel {
                        variant: new_variant_ref(
                            variant,
                            path.written_index_span(),
                            Vec::new(),
                            path.segments.last().span,
                        ),
                        span,
                    },
                ),
                Err(_) => {},
            }
        }
        match self.ctx.resolver.resolve_constructor_path(self.ctx.owner, &names) {
            Ok(constructor) => self.lower_constructor_pattern(constructor, path.span(), bindings, span),
            Err(error) => if error.is_unknown_name() || error.is_unknown_alias() || error.is_unknown_module() {
                Err(ExprLowerError::unknown_pattern(path.display_path(), span))
            } else {
                Err(ExprLowerError::module_resolve(error, span))
            },
        }
    }

    fn lower_match_pattern(&mut self, pattern: &crate::syntax::ast::MatchPattern) -> (r: Result<
        MatchPattern,
        ExprLowerError,
    >)
        ensures
            low_term(r, |p: MatchPattern| (p.term(Spans::Kept), pattern_locals(p)), *final(self)) == match_pattern(
                old(self).ctx@,
                *pattern,
                old(self).state(),
            ),
            grew(*old(self), *final(self)),
            final(self).ctx == old(self).ctx,
            !erred(*old(self), *final(self)),
    {
        reveal(match_pattern);
        proof {
            lemma_grew_same(*self);
        }
        match pattern {
            crate::syntax::ast::MatchPattern::Path { path, bindings, span } => self.lower_path_pattern(
                path,
                bindings,
                *span,
            ),
            crate::syntax::ast::MatchPattern::Constructor { name, bindings, span } => {
                let path = NamePath::local(NameAtom { text: name.value.atom.text.clone() });
                match self.ctx.resolver.resolve_constructor_path(self.ctx.owner, &path) {
                    Ok(constructor) => self.lower_constructor_pattern(constructor, name.span, bindings, *span),
                    Err(error) => Err(ExprLowerError::module_resolve(error, name.span)),
                }
            },
            crate::syntax::ast::MatchPattern::IndexLabel { index, variant, span } => {
                match self.ctx.resolve_index_variant_parts(&index.value, &variant.value, index.span, variant.span) {
                    Ok(found) => Ok(
                        MatchPattern::IndexLabel {
                            variant: new_variant_ref(found, Some(index.span), Vec::new(), variant.span),
                            span: *span,
                        },
                    ),
                    Err(error) => Err(error),
                }
            },
        }
    }

    fn lower_match_arm(&mut self, arm: &ast::MatchArm) -> (r: Result<MatchArm, ExprLowerError>)
        ensures
            low_term(r, |arm: MatchArm| arm.to_term(), *final(self)) == lowered_arm(
                old(self).ctx@,
                *arm,
                old(self).state(),
            ),
            grew(*old(self), *final(self)),
            final(self).ctx == old(self).ctx,
            r is Ok ==> r->Ok_0.has_error() == erred(*old(self), *final(self)),
        decreases arm, 0nat,
    {
        let pattern = match self.lower_match_pattern(&arm.pattern) {
            Ok(pattern) => pattern,
            Err(error) => return Err(error),
        };
        match self.lower_in_scope(&arm.body, pattern.bound_locals()) {
            Ok(body) => Ok(MatchArm { pattern, body, span: arm.span }),
            Err(error) => Err(error),
        }
    }

    fn lower_match_arms(&mut self, v: &Vec<ast::MatchArm>) -> (r: Result<Vec<MatchArm>, ExprLowerError>)
        ensures
            low_term(
                r,
                |items: Vec<MatchArm>| MatchArm::terms(items),
                *final(self),
            ) == lowered_arms(old(self).ctx@, *v, v.len() as nat, old(self).state()),
            grew(*old(self), *final(self)),
            final(self).ctx == old(self).ctx,
            r is Ok ==> MatchArm::any_error(r->Ok_0) == erred(*old(self), *final(self)),
        decreases v, v.len(),
    {
        let ghost before = *self;
        let mut out: Vec<MatchArm> = Vec::new();
        proof {
            lemma_grew_same(before);
            assert(MatchArm::terms(out) =~= Seq::empty());
        }
        for i in 0..v.len()
            invariant
                lowered_arms(
                    before.ctx@,
                    *v,
                    i as nat,
                    before.state(),
                ) == Low::Done(MatchArm::terms(out), self.state()),
                grew(before, *self),
                self.ctx == before.ctx,
                before == *old(self),
                MatchArm::any_error(out) == erred(before, *self),
            decreases v.len() - i,
        {
            match self.lower_match_arm(&v[i]) {
                Ok(item) => {
                    let ghost previous = out;
                    out.push(item);
                    proof {
                        MatchArm::lemma_push(previous, item, out);
                    }
                },
                Err(error) => {
                    proof {
                        lemma_arms_fail(before.ctx@, *v, (i + 1) as nat, before.state());
                    }
                    return Err(error);
                },
            }
        }
        Ok(out)
    }

    fn lower_param_binding(&mut self, target: &DagId, binding: &ast::ParamBinding) -> (r: Result<
        ParamBinding,
        ExprLowerError,
    >)
        ensures
            low_term(r, |binding: ParamBinding| binding.to_term(), *final(self)) == param_binding(
                old(self).ctx@,
                owner_of(*target),
                *binding,
                old(self).state(),
            ),
            grew(*old(self), *final(self)),
            final(self).ctx == old(self).ctx,
            r is Ok ==> r->Ok_0.has_error() == erred(*old(self), *final(self)),
        decreases binding, 0nat,
    {
        proof {
            lemma_grew_same(*self);
        }
        let path = NamePath::local(NameAtom { text: binding.name.name.text.clone() });
        match self.ctx.resolver.resolve_decl_path(target, &path) {
            Ok(name) => {
                let value = self.lower_expr(&binding.value);
                Ok(ParamBinding { target: Spanned { value: name, span: binding.name.span }, value })
            },
            Err(error) => Err(ExprLowerError::module_resolve(error, binding.name.span)),
        }
    }

    fn lower_param_bindings(
        &mut self,
        target: &DagId,
        v: &Vec<ast::ParamBinding>,
    ) -> (r: Result<Vec<ParamBinding>, ExprLowerError>)
        ensures
            low_term(r, |items: Vec<ParamBinding>| ParamBinding::terms(items), *final(self)) == param_bindings(
                old(self).ctx@,
                owner_of(*target),
                *v,
                v.len() as nat,
                old(self).state(),
            ),
            grew(*old(self), *final(self)),
            final(self).ctx == old(self).ctx,
            r is Ok ==> ParamBinding::any_error(r->Ok_0) == erred(*old(self), *final(self)),
        decreases v, v.len(),
    {
        let ghost before = *self;
        let mut out: Vec<ParamBinding> = Vec::new();
        proof {
            lemma_grew_same(before);
            assert(ParamBinding::terms(out) =~= Seq::empty());
        }
        for i in 0..v.len()
            invariant
                param_bindings(
                    before.ctx@,
                    owner_of(*target),
                    *v,
                    i as nat,
                    before.state(),
                ) == Low::Done(ParamBinding::terms(out), self.state()),
                grew(before, *self),
                self.ctx == before.ctx,
                before == *old(self),
                ParamBinding::any_error(out) == erred(before, *self),
            decreases v.len() - i,
        {
            match self.lower_param_binding(target, &v[i]) {
                Ok(item) => {
                    let ghost previous = out;
                    out.push(item);
                    proof {
                        ParamBinding::lemma_push(previous, item, out);
                    }
                },
                Err(error) => {
                    proof {
                        lemma_param_bindings_fail(before.ctx@, owner_of(*target), *v, (i + 1) as nat, before.state());
                    }
                    return Err(error);
                },
            }
        }
        Ok(out)
    }

    /// An inline DAG call.
    fn lower_dag_call(
        &mut self,
        path: &ModulePath,
        args: &Vec<ast::ParamBinding>,
        output: &Spanned<crate::syntax::names::DeclName>,
    ) -> (r: Result<ExprKind, ExprLowerError>)
        ensures
            low_term(r, |kind: ExprKind| kind.to_term(), *final(self)) == dag_call(
                old(self).ctx@,
                *path,
                *args,
                *output,
                old(self).state(),
            ),
            grew(*old(self), *final(self)),
            final(self).ctx == old(self).ctx,
            r is Ok ==> r->Ok_0.has_error() == erred(*old(self), *final(self)),
        decreases args, args.len() + 1,
    {
        proof {
            lemma_grew_same(*self);
        }
        let target = match self.ctx.resolver.resolve_module_path(self.ctx.owner, &path.to_name_path()) {
            Ok(target) => target,
            Err(error) => return Err(ExprLowerError::module_resolve(error, path.span)),
        };
        let items = match self.lower_param_bindings(&target, args) {
            Ok(items) => items,
            Err(error) => return Err(error),
        };
        let name = NamePath::local(NameAtom { text: output.value.atom.text.clone() });
        proof {
            lemma_dag_term(target);
        }
        match self.ctx.resolver.resolve_decl_path(&target, &name) {
            Ok(name) => Ok(
                ExprKind::dag_call(
                    Spanned { value: target, span: path.span },
                    items,
                    Spanned { value: name, span: output.span },
                ),
            ),
            Err(error) => Err(ExprLowerError::module_resolve(error, output.span)),
        }
    }

    fn lower_unresolved_path(&self, path: &IdentPath) -> (r: Result<ExprKind, ExprLowerError>)
        ensures
            kind_result(r) == unresolved_ref(self.ctx@, self.state(), *path),
            r is Ok ==> !r->Ok_0.has_error(),
    {
        reveal(unresolved_ref);
        match path.as_bare() {
            None => self.ctx.lower_dotted_path_ref(path),
            Some(ident) => {
                assert(idents_of(*path)[0] == ident.name.text@);
                assert(path.segments@[0] == *ident);
                match self.lookup_local(&ident.name) {
                    Some(id) => Ok(ExprKind::local_ref(Spanned { value: id, span: ident.span })),
                    None => self.ctx.lower_module_name(ident),
                }
            },
        }
    }

    /// Two locals of a fold.
    fn allocate_two(
        &mut self,
        first: &Spanned<LocalName>,
        second: &Spanned<LocalName>,
    ) -> (r: Result<(LocalDef, LocalDef), ExprLowerError>)
        ensures
            low_term(r, |l: (LocalDef, LocalDef)| seq![local_of(l.0), local_of(l.1)], *final(self)) == fold_locals(
                seq![*first, *second],
                2,
                old(self).state(),
            ),
            grew(*old(self), *final(self)),
            final(self).ctx == old(self).ctx,
            !erred(*old(self), *final(self)),
    {
        reveal_with_fuel(fold_locals, 3);
        let a = match self.allocate_local(&first.value.atom, first.span) {
            Ok(a) => a,
            Err(error) => return Err(error),
        };
        let b = match self.allocate_local(&second.value.atom, second.span) {
            Ok(b) => b,
            Err(error) => return Err(error),
        };
        assert(Seq::<Local>::empty().push(local_of(a)).push(local_of(b)) =~= seq![local_of(a), local_of(b)]);
        Ok((a, b))
    }

    /// What the kind of an expression resolves to.
    fn lower_expr_inner(&mut self, e: &ast::Expr) -> (r: Result<ExprKind, ExprLowerError>)
        ensures
            low_term(r, |kind: ExprKind| kind.to_term(), *final(self)) == lowered_kind(
                old(self).ctx@,
                *e,
                old(self).state(),
            ),
            grew(*old(self), *final(self)),
            final(self).ctx == old(self).ctx,
            r is Ok ==> r->Ok_0.has_error() == erred(*old(self), *final(self)),
        decreases e, 1int,
    {
        proof {
            lemma_grew_same(*self);
        }
        match &e.kind {
            ast::ExprKind::Number(value) => Ok(ExprKind::number(*value)),
            ast::ExprKind::Integer(value) => Ok(ExprKind::integer(*value)),
            ast::ExprKind::Bool(value) => Ok(ExprKind::boolean(*value)),
            ast::ExprKind::StringLiteral(value) => Ok(ExprKind::text(value.clone())),
            ast::ExprKind::UnresolvedRef(UnresolvedRef::Path(path)) => self.lower_unresolved_path(path),
            ast::ExprKind::GraphRef(name) => match self.ctx.resolve_decl_scoped_name(&name.value, name.span) {
                Ok(target) => Ok(ExprKind::graph_ref(Spanned { value: target, span: name.span })),
                Err(error) => Err(error),
            },
            ast::ExprKind::BinOp { op, lhs, rhs } => {
                let l = self.lower_expr(lhs);
                let r = self.lower_expr(rhs);
                Ok(ExprKind::binary(*op, l, r))
            },
            ast::ExprKind::UnaryOp { op, operand } => {
                let operand = self.lower_expr(operand);
                Ok(ExprKind::unary(*op, operand))
            },
            ast::ExprKind::FnCall { callee, generic_args, args } => self.lower_call(callee, generic_args, args),
            ast::ExprKind::If { condition, then_branch, else_branch } => {
                let condition = self.lower_expr(condition);
                let then_branch = self.lower_expr(then_branch);
                let else_branch = self.lower_expr(else_branch);
                Ok(ExprKind::conditional(condition, then_branch, else_branch))
            },
            ast::ExprKind::QuantityLiteral { value, unit } => match self.ctx.lower_unit_expr(unit) {
                Ok(unit) => Ok(ExprKind::quantity(*value, unit)),
                Err(error) => Err(error),
            },
            ast::ExprKind::Convert { expr, target } => {
                let expr = self.lower_expr(expr);
                match self.ctx.lower_unit_expr(target) {
                    Ok(target) => Ok(ExprKind::converted(expr, target)),
                    Err(error) => Err(error),
                }
            },
            ast::ExprKind::DisplayTimezone { expr, timezone } => {
                let expr = self.lower_expr(expr);
                match self.ctx.lower_iana_time_zone_id(timezone, e.span) {
                    Ok(zone) => Ok(ExprKind::in_time_zone(expr, zone)),
                    Err(error) => Err(error),
                }
            },
            ast::ExprKind::FieldAccess { expr, field } => match self.ctx.resolve_alias_field_access(expr, field) {
                Some(kind) => Ok(kind),
                None => {
                    let expr = self.lower_expr(expr);
                    Ok(ExprKind::field_access(expr, field.deep_clone()))
                },
            },
            ast::ExprKind::ConstructorCall { callee, generic_args, fields } => self.lower_constructor_call(
                callee,
                generic_args,
                fields,
                e.span,
            ),
            ast::ExprKind::MapLiteral { entries } => match self.lower_map_entries(e.span, entries) {
                Ok(items) => Ok(ExprKind::map(items)),
                Err(error) => Err(error),
            },
            ast::ExprKind::IndexAccess { expr, args } => {
                let expr = self.lower_expr(expr);
                let first = match self.lower_index_arg(&args.first) {
                    Ok(first) => first,
                    Err(error) => return Err(error),
                };
                match self.lower_index_args(&args.rest) {
                    Ok(rest) => Ok(ExprKind::indexed(expr, NonEmpty::new(first, rest))),
                    Err(error) => Err(error),
                }
            },
            ast::ExprKind::KeyForm { kind, axis, arg } => {
                let index = match self.ctx.lower_key_axis(axis) {
                    Ok(index) => index,
                    Err(error) => return Err(error),
                };
                let arg = self.lower_expr(arg);
                Ok(ExprKind::key_form(*kind, index, axis.span(), arg))
            },
            ast::ExprKind::InlineDagRef { path, args, output } => self.lower_dag_call(path, args, output),
            _ => self.lower_binding_form(e),
        }
    }

    /// A form that brings locals into scope.
    fn lower_binding_form(&mut self, e: &ast::Expr) -> (r: Result<ExprKind, ExprLowerError>)
        requires
            e.kind is ForComp || e.kind is Scan || e.kind is Unfold || e.kind is Match,
        ensures
            low_term(r, |kind: ExprKind| kind.to_term(), *final(self)) == lowered_kind(
                old(self).ctx@,
                *e,
                old(self).state(),
            ),
            grew(*old(self), *final(self)),
            final(self).ctx == old(self).ctx,
            r is Ok ==> r->Ok_0.has_error() == erred(*old(self), *final(self)),
        decreases e, 0int,
    {
        proof {
            lemma_grew_same(*self);
        }
        match &e.kind {
            ast::ExprKind::ForComp { bindings, body } => {
                let items = match self.lower_for_bindings(bindings) {
                    Ok(items) => items,
                    Err(error) => return Err(error),
                };
                match self.lower_in_scope(body, binding_locals(&items)) {
                    Ok(body) => Ok(ExprKind::comprehension(items, body)),
                    Err(error) => Err(error),
                }
            },
            ast::ExprKind::Scan { source, init, acc_name, val_name, body } => {
                let source = self.lower_expr(source);
                let init = self.lower_expr(init);
                let (acc, val) = match self.allocate_two(acc_name, val_name) {
                    Ok(locals) => locals,
                    Err(error) => return Err(error),
                };
                let mut scope: Vec<LocalDef> = Vec::new();
                scope.push(copy_local(&acc));
                scope.push(copy_local(&val));
                assert(locals_of(scope@) =~= seq![local_of(acc), local_of(val)]);
                match self.lower_in_scope(body, scope) {
                    Ok(body) => Ok(ExprKind::scan(source, init, acc, val, body)),
                    Err(error) => Err(error),
                }
            },
            ast::ExprKind::Unfold { axis, init, prev_state_name, prev_index_name, index_name, body } => {
                let axis = match self.ctx.lower_index(axis) {
                    Ok(axis) => axis,
                    Err(error) => return Err(error),
                };
                let init = self.lower_expr(init);
                let (state, previous, current) = match self.allocate_three(
                    prev_state_name,
                    prev_index_name,
                    index_name,
                ) {
                    Ok(locals) => locals,
                    Err(error) => return Err(error),
                };
                let mut scope: Vec<LocalDef> = Vec::new();
                scope.push(copy_local(&state));
                scope.push(copy_local(&previous));
                scope.push(copy_local(&current));
                assert(locals_of(scope@) =~= seq![local_of(state), local_of(previous), local_of(current)]);
                match self.lower_in_scope(body, scope) {
                    Ok(body) => Ok(
                        ExprKind::unfold(
                            UnfoldRecurrence {
                                axis,
                                previous_state: state,
                                previous_index: previous,
                                current_index: current,
                            },
                            init,
                            body,
                        ),
                    ),
                    Err(error) => Err(error),
                }
            },
            ast::ExprKind::Match { scrutinee, arms } => {
                let scrutinee = self.lower_expr(scrutinee);
                match self.lower_match_arms(arms) {
                    Ok(arms) => Ok(ExprKind::matched(scrutinee, arms)),
                    Err(error) => Err(error),
                }
            },
            _ => vstd::pervasive::unreached(),
        }
    }

    /// Three locals of a fold.
    fn allocate_three(
        &mut self,
        first: &Spanned<LocalName>,
        second: &Spanned<LocalName>,
        third: &Spanned<LocalName>,
    ) -> (r: Result<(LocalDef, LocalDef, LocalDef), ExprLowerError>)
        ensures
            low_term(
                r,
                |l: (LocalDef, LocalDef, LocalDef)| seq![local_of(l.0), local_of(l.1), local_of(l.2)],
                *final(self),
            ) == fold_locals(seq![*first, *second, *third], 3, old(self).state()),
            grew(*old(self), *final(self)),
            final(self).ctx == old(self).ctx,
            !erred(*old(self), *final(self)),
    {
        reveal_with_fuel(fold_locals, 4);
        let a = match self.allocate_local(&first.value.atom, first.span) {
            Ok(a) => a,
            Err(error) => return Err(error),
        };
        let b = match self.allocate_local(&second.value.atom, second.span) {
            Ok(b) => b,
            Err(error) => return Err(error),
        };
        let c = match self.allocate_local(&third.value.atom, third.span) {
            Ok(c) => c,
            Err(error) => return Err(error),
        };
        assert(Seq::<Local>::empty().push(local_of(a)).push(local_of(b)).push(local_of(c)) =~= seq![
            local_of(a),
            local_of(b),
            local_of(c),
        ]);
        Ok((a, b, c))
    }
}

proof fn lemma_function_args_fail(c: Ctx, f: Fun, v: Vec<ast::Expr>, n: nat, st: St)
    requires
        function_args_upto(c, f, v, n, st) is Failed,
        n <= v.len(),
    ensures
        function_args_upto(c, f, v, v.len() as nat, st) == function_args_upto(c, f, v, n, st),
    decreases v.len() - n,
{
    if n < v.len() {
        lemma_function_args_fail(c, f, v, n + 1, st);
    }
}

proof fn lemma_keys_fail(c: Ctx, v: Vec<ast::MapEntryKey>, n: nat, span: Span, st: St)
    requires
        lowered_keys(c, v, n, span, st) is Failed,
        n <= v.len(),
    ensures
        lowered_keys(c, v, v.len() as nat, span, st) == lowered_keys(c, v, n, span, st),
    decreases v.len() - n,
{
    if n < v.len() {
        lemma_keys_fail(c, v, n + 1, span, st);
    }
}

proof fn lemma_entries_fail(c: Ctx, v: Vec<ast::MapEntry>, n: nat, span: Span, st: St)
    requires
        lowered_entries(c, v, n, span, st) is Failed,
        n <= v.len(),
    ensures
        lowered_entries(c, v, v.len() as nat, span, st) == lowered_entries(c, v, n, span, st),
    decreases v.len() - n,
{
    if n < v.len() {
        lemma_entries_fail(c, v, n + 1, span, st);
    }
}

proof fn lemma_index_args_fail(c: Ctx, v: Vec<ast::IndexArg>, n: nat, st: St)
    requires
        index_args(c, v, n, st) is Failed,
        n <= v.len(),
    ensures
        index_args(c, v, v.len() as nat, st) == index_args(c, v, n, st),
    decreases v.len() - n,
{
    if n < v.len() {
        lemma_index_args_fail(c, v, n + 1, st);
    }
}

proof fn lemma_for_bindings_fail(c: Ctx, v: Seq<crate::syntax::ast::ForBinding>, n: nat, st: St)
    requires
        for_bindings(c, v, n, st) is Failed,
        n <= v.len(),
    ensures
        for_bindings(c, v, v.len(), st) == for_bindings(c, v, n, st),
    decreases v.len() - n,
{
    if n < v.len() {
        lemma_for_bindings_fail(c, v, n + 1, st);
    }
}

proof fn lemma_pattern_bindings_fail(v: Seq<crate::syntax::ast::PatternBinding>, n: nat, st: St)
    requires
        pattern_bindings(v, n, st) is Failed,
        n <= v.len(),
    ensures
        pattern_bindings(v, v.len(), st) == pattern_bindings(v, n, st),
    decreases v.len() - n,
{
    if n < v.len() {
        lemma_pattern_bindings_fail(v, n + 1, st);
    }
}

proof fn lemma_arms_fail(c: Ctx, v: Vec<ast::MatchArm>, n: nat, st: St)
    requires
        lowered_arms(c, v, n, st) is Failed,
        n <= v.len(),
    ensures
        lowered_arms(c, v, v.len() as nat, st) == lowered_arms(c, v, n, st),
    decreases v.len() - n,
{
    if n < v.len() {
        lemma_arms_fail(c, v, n + 1, st);
    }
}

proof fn lemma_param_bindings_fail(c: Ctx, target: Seq<Seq<char>>, v: Vec<ast::ParamBinding>, n: nat, st: St)
    requires
        param_bindings(c, target, v, n, st) is Failed,
        n <= v.len(),
    ensures
        param_bindings(c, target, v, v.len() as nat, st) == param_bindings(c, target, v, n, st),
    decreases v.len() - n,
{
    if n < v.len() {
        lemma_param_bindings_fail(c, target, v, n + 1, st);
    }
}

proof fn lemma_assoc(a: Seq<Term>, b: Seq<Term>, c: Seq<Term>)
    ensures
        a + b + c == a + (b + c),
{
    assert(a + b + c =~= a + (b + c));
}

/// The name of a time zone, if there is one.
pub open spec fn zone_name(zone: Option<IanaTimeZoneId>) -> Option<Seq<char>> {
    match zone {
        Some(zone) => Some(zone.name@),
        None => None,
    }
}

fn lower_civil_datetime_literal(text: &String, expectation: DatetimeLiteralExpectation, span: Span) -> (r: Result<
    CivilDateTimeLiteral,
    ExprLowerError,
>)
    ensures
        match r {
            Ok(literal) => civil_literal(text@, expectation, span) == Ok::<CivilDateTimeLiteral, Term>(literal),
            Err(error) => civil_literal(text@, expectation, span) == Err::<CivilDateTimeLiteral, Term>(
                error.to_term(),
            ),
        },
{
    reveal(civil_literal);
    match CivilDateTimeLiteral::parse(text) {
        Ok(literal) => Ok(literal),
        Err(reason) => Err(ExprLowerError::invalid_datetime_literal(expectation, reason, span)),
    }
}

fn names_of_fields(fields: &Vec<ast::FieldInit>) -> (r: Vec<FieldName>)
    ensures
        r.term(Spans::Kept) == field_names(*fields),
{
    let mut names: Vec<FieldName> = Vec::new();
    for i in 0..fields.len()
        invariant
            names@.len() == i,
            forall|j: int| 0 <= j < i ==> (#[trigger] names@[j]).atom.text@ == fields[j].name.value.atom.text@,
    {
        names.push(FieldName { atom: NameAtom { text: fields[i].name.value.atom.text.clone() } });
    }
    assert(seq_terms(names@, Spans::Kept) =~= Seq::new(
        fields.len() as nat,
        |i: int| Term::Text(fields[i].name.value.atom.text@),
    ));
    names
}

/// A discrete map key.
fn lower_discrete_key(
    ctx: &ExprLoweringContext,
    index: &Spanned<MapEntryIndex>,
    additional_index_spans: &Vec<Span>,
    entry: &Spanned<IndexEntryKey>,
    map_span: Span,
) -> (r: Result<MapEntryKey, ExprLowerError>)
    ensures
        match r {
            Ok(key) => discrete_key(ctx@, *index, additional_index_spans@, *entry, map_span) == Ok::<Term, Term>(
                key.to_term(),
            ) && !key.has_error(),
            Err(error) => discrete_key(ctx@, *index, additional_index_spans@, *entry, map_span) == Err::<Term, Term>(
                error.to_term(),
            ),
        },
{
    reveal(discrete_key);
    reveal(resolution);
    reveal(variant_resolution);
    match (&index.value, &entry.value) {
        (MapEntryIndex::Named(path), IndexEntryKey::Named(name)) => {
            match ctx.resolver.resolve_index_variant_parts(ctx.owner, path, name) {
                Ok(variant) => Ok(
                    MapEntryKey::IndexVariant(
                        new_variant_ref(variant, Some(index.span), copy_spans(additional_index_spans), entry.span),
                    ),
                ),
                Err(error) => match error {
                    ModuleResolveError::UnknownIndexVariant { index: known, variant } => Err(
                        ExprLowerError::extra_map_variant(known.name.atom.text, variant.atom.text, map_span),
                    ),
                    _ => Err(ExprLowerError::module_resolve(error, index.span)),
                },
            }
        },
        (MapEntryIndex::Finite(size), IndexEntryKey::Position(position)) => Ok(
            MapEntryKey::FinitePosition { size: *size, position: Spanned { value: *position, span: entry.span } },
        ),
        _ => Err(ExprLowerError::invalid_map_entry_key(entry.span)),
    }
}

/// The locals of the bindings of a comprehension.
pub open spec fn locals_of_bindings(bindings: Seq<ForBinding>) -> Seq<Local> {
    Seq::new(bindings.len(), |i: int| local_of(bindings[i].local))
}

fn binding_locals(bindings: &Vec<ForBinding>) -> (r: Vec<LocalDef>)
    ensures
        locals_of(r@) == locals_of_bindings(bindings@),
{
    let mut locals: Vec<LocalDef> = Vec::new();
    for i in 0..bindings.len()
        invariant
            locals@.len() == i,
            forall|j: int| 0 <= j < i ==> local_of(#[trigger] locals@[j]) == local_of(bindings@[j].local),
    {
        locals.push(copy_local(&bindings[i].local));
    }
    assert(locals_of(locals@) =~= locals_of_bindings(bindings@));
    locals
}

/// The local that a binding of a pattern makes, if it makes one.
pub open spec fn locals_bound_by(binding: PatternBinding) -> Seq<Local> {
    match binding {
        PatternBinding::Bind { field, local } => seq![local_of(local)],
        PatternBinding::Wildcard { field, span } => Seq::empty(),
    }
}

/// The locals that the first `n` bindings of a pattern make.
pub open spec fn locals_bound(bindings: Seq<PatternBinding>, n: nat) -> Seq<Local>
    decreases n,
{
    if n == 0 || n > bindings.len() {
        Seq::empty()
    } else {
        locals_bound(bindings, (n - 1) as nat) + locals_bound_by(bindings[n - 1])
    }
}

/// The locals that a pattern makes.
pub open spec fn pattern_locals(pattern: MatchPattern) -> Seq<Local> {
    match pattern {
        MatchPattern::Constructor { constructor, bindings, span } => locals_bound(bindings@, bindings@.len()),
        MatchPattern::IndexLabel { variant, span } => Seq::empty(),
    }
}

proof fn lemma_locals_bound_push(bindings: Seq<PatternBinding>, binding: PatternBinding, n: nat)
    requires
        n <= bindings.len(),
    ensures
        locals_bound(bindings.push(binding), n) == locals_bound(bindings, n),
        n == bindings.len() ==> locals_bound(bindings.push(binding), n + 1) == locals_bound(bindings, n)
            + locals_bound_by(binding),
    decreases n,
{
    if n > 0 {
        lemma_locals_bound_push(bindings, binding, (n - 1) as nat);
        assert(bindings.push(binding)[n - 1] == bindings[n - 1]);
    }
}

impl MatchPattern {
    /// The locals that the pattern makes.
    pub fn bound_locals(&self) -> (r: Vec<LocalDef>)
        ensures
            locals_of(r@) == pattern_locals(*self),
    {
        let mut locals: Vec<LocalDef> = Vec::new();
        assert(locals_of(locals@) =~= Seq::empty());
        match self {
            MatchPattern::Constructor { constructor, bindings, span } => {
                for i in 0..bindings.len()
                    invariant
                        locals_of(locals@) == locals_bound(bindings@, i as nat),
                {
                    let ghost previous = locals@;
                    match &bindings[i] {
                        PatternBinding::Bind { field, local } => {
                            locals.push(copy_local(local));
                            assert(locals_of(locals@) =~= locals_of(previous) + seq![local_of(*local)]);
                        },
                        PatternBinding::Wildcard { field, span } => {
                            assert(locals_of(locals@) =~= locals_of(previous) + Seq::empty());
                        },
                    }
                }
            },
            MatchPattern::IndexLabel { variant, span } => {},
        }
        locals
    }
}

/// How an expression resolves in a context, with the errors.
pub open spec fn lowered_alone(c: Ctx, e: ast::Expr) -> (Term, Seq<Term>) {
    let (t, st) = lowered(c, e, St { scopes: Seq::empty(), next: 0, errors: Seq::empty() });
    (t, st.errors)
}

/// Resolves an expression: the tree, and why parts of it did not resolve.
///
/// The tree has one error node for each error.
pub fn lower_expr_tolerant(expr: &ast::Expr, ctx: ExprLoweringContext<'_>) -> (r: (Expr, Vec<ExprLowerError>))
    ensures
        lowered_alone(ctx@, *expr) == (r.0.to_term(), error_terms(r.1@)),
        r.0.error_count() == r.1@.len(),
        r.0.has_error() == (r.1@.len() > 0),
        r.0.span == expr.span,
        mirrors(Seq::empty(), *expr, r.0),
{
    let mut lowerer = ExprLowerer::new(ctx);
    let ghost before = lowerer;
    let tree = lowerer.lower_expr(expr);
    proof {
        law_one_error_per_error_node(ctx@, *expr, before.state());
        assert(sees(before.state().scopes, Seq::empty()));
        law_resolution_keeps_the_shape(ctx@, *expr, before.state(), Seq::empty(), tree);
        reveal(ExprLowerer::state);
        reveal(erred);
    }
    (tree, lowerer.diagnostics)
}

/// Resolves an expression all of whose names have to resolve.
///
/// The tree, or the first error.
pub fn lower_expr(expr: &ast::Expr, ctx: ExprLoweringContext<'_>) -> (r: Result<Expr, ExprLowerError>)
    ensures
        match r {
            Ok(tree) => lowered_alone(ctx@, *expr) == (tree.to_term(), Seq::<Term>::empty()) && !tree.has_error()
                && mirrors(Seq::empty(), *expr, tree),
            Err(error) => lowered_alone(ctx@, *expr).1.len() > 0 && lowered_alone(ctx@, *expr).1[0]
                == error.to_term(),
        },
{
    let (tree, errors) = lower_expr_tolerant(expr, ctx);
    let mut errors = errors;
    if errors.len() == 0 {
        assert(error_terms(errors@) =~= Seq::empty());
        Ok(tree)
    } else {
        let ghost all = errors@;
        let first = errors.swap_remove(0);
        assert(first == all[0]);
        Err(first)
    }
}

/// How an assertion resolves in a context, with the errors: each of its
/// expressions on its own.
pub open spec fn lowered_assert(c: Ctx, body: ast::AssertBody) -> (Term, Seq<Term>) {
    match body {
        ast::AssertBody::Expr(e) => (
            node1(Tag::HirAssertBodyExpr, lowered_alone(c, e).0),
            lowered_alone(c, e).1,
        ),
        ast::AssertBody::Tolerance { actual, expected, tolerance } => (
            node3(
                Tag::HirAssertBodyTolerance,
                lowered_alone(c, *actual).0,
                lowered_alone(c, *expected).0,
                lowered_alone(c, *tolerance).0,
            ),
            lowered_alone(c, *actual).1 + lowered_alone(c, *expected).1 + lowered_alone(c, *tolerance).1,
        ),
    }
}

impl Expr {
    /// The number of error nodes in the expression.
    pub open spec fn error_count(self) -> nat {
        error_nodes(self.to_term())
    }
}

impl AssertBody {
    /// The number of error nodes in the assertion.
    pub open spec fn error_count(self) -> nat {
        error_nodes(self.to_term())
    }

    /// Whether some part of the assertion did not resolve.
    pub open spec fn has_error(self) -> bool {
        match self {
            AssertBody::Expr(e) => e.has_error(),
            AssertBody::Tolerance { actual, expected, tolerance } => actual.has_error() || expected.has_error()
                || tolerance.has_error(),
        }
    }
}

/// Whether each expression of a resolved assertion mirrors the one in its place.
pub open spec fn mirrors_assert(a: ast::AssertBody, b: AssertBody) -> bool {
    match (a, b) {
        (ast::AssertBody::Expr(e), AssertBody::Expr(h)) => mirrors(Seq::empty(), e, h),
        (
            ast::AssertBody::Tolerance { actual, expected, tolerance },
            AssertBody::Tolerance { actual: actual_, expected: expected_, tolerance: tolerance_ },
        ) => mirrors(Seq::empty(), *actual, *actual_) && mirrors(Seq::empty(), *expected, *expected_) && mirrors(
            Seq::empty(),
            *tolerance,
            *tolerance_,
        ),
        _ => false,
    }
}

/// Resolves an assertion: the tree, and why parts of it did not resolve.
pub fn lower_assert_body_tolerant(body: &ast::AssertBody, ctx: ExprLoweringContext<'_>) -> (r: (
    AssertBody,
    Vec<ExprLowerError>,
))
    ensures
        lowered_assert(ctx@, *body) == (r.0.to_term(), error_terms(r.1@)),
        mirrors_assert(*body, r.0),
        r.0.error_count() == r.1@.len(),
        r.0.has_error() == (r.1@.len() > 0),
{
    match body {
        ast::AssertBody::Expr(e) => {
            let (tree, errors) = lower_expr_tolerant(e, ctx);
            proof {
                lemma_node1(Tag::HirAssertBodyExpr, tree.to_term());
            }
            (AssertBody::Expr(tree), errors)
        },
        ast::AssertBody::Tolerance { actual, expected, tolerance } => {
            let (actual, mut errors) = lower_expr_tolerant(actual, ctx);
            let (expected, more) = lower_expr_tolerant(expected, ctx);
            let (tolerance, most) = lower_expr_tolerant(tolerance, ctx);
            let ghost first = errors@;
            let ghost second = more@;
            let ghost third = most@;
            let mut more = more;
            let mut most = most;
            errors.append(&mut more);
            errors.append(&mut most);
            proof {
                assert(errors@ =~= first + second + third);
                assert(error_terms(errors@) =~= error_terms(first) + error_terms(second) + error_terms(third));
                lemma_node3(
                    Tag::HirAssertBodyTolerance,
                    actual.to_term(),
                    expected.to_term(),
                    tolerance.to_term(),
                );
            }
            (
                AssertBody::Tolerance {
                    actual: Box::new(actual),
                    expected: Box::new(expected),
                    tolerance: Box::new(tolerance),
                },
                errors,
            )
        },
    }
}

/// Resolves an assertion all of whose names have to resolve.
///
/// The tree, or the first error.
pub fn lower_assert_body(body: &ast::AssertBody, ctx: ExprLoweringContext<'_>) -> (r: Result<
    AssertBody,
    ExprLowerError,
>)
    ensures
        match r {
            Ok(tree) => lowered_assert(ctx@, *body) == (tree.to_term(), Seq::<Term>::empty()) && !tree.has_error()
                && mirrors_assert(*body, tree),
            Err(error) => lowered_assert(ctx@, *body).1.len() > 0 && lowered_assert(ctx@, *body).1[0]
                == error.to_term(),
        },
{
    let (tree, errors) = lower_assert_body_tolerant(body, ctx);
    let mut errors = errors;
    if errors.len() == 0 {
        assert(error_terms(errors@) =~= Seq::empty());
        Ok(tree)
    } else {
        let ghost all = errors@;
        let first = errors.swap_remove(0);
        assert(first == all[0]);
        Err(first)
    }
}

} // verus!
