//! What an expression resolves to.
//!
//! A name is tried, in order, as a local, a built-in constant, a time scale, a
//! constructor, a name of the type system and a constant. A part that does not
//! resolve becomes an error node over the sub-expressions that do, and its
//! error is recorded; what was recorded while trying it is forgotten.

use crate::desugar::desugared_ast as ast;
use crate::hir::builtins::{builtin_const, builtin_fn, fixed_arity, time_scale};
use crate::hir::context::{bound_decl, is_nat_param, lists_dimension, lists_unit, Ctx};
use crate::hir::datetime::{
    civil_datetime, offset_datetime, time_zone_name, zoned_datetime, DatetimeLiteralExpectation, ZonedResult,
};
use crate::hir::error::{
    duplicate_local_binding, epoch_time_scale_argument_count, expected_index_found_nat, extra_map_variant,
    invalid_datetime_literal, invalid_epoch_time_scale_argument, invalid_map_entry_key, invalid_timezone,
    module_resolve, named_arguments_on_function, nonexistent_civil_date_time, repeated_civil_date_time,
    time_zone_registry_invariant, too_many_locals, unknown_extern_function, unknown_function, unknown_graph_ref,
    unknown_local_ref, unknown_nat_param, unknown_pattern, unknown_unit, unsupported_epoch_time_scale,
    unsupported_function_generic_args, wrong_arity,
};
use crate::hir::generics::generic_args;
use crate::hir::resolve::{
    bare_variant_resolution, const_resolution, generic_params_at, dag_term, decl_kind, dotted_path, idents_of,
    module_at, module_resolution, plugin_at, resolution, resolved, symbol_at, target_term, variant_path_resolution,
    variant_resolution, DeclSymbolKind, GenericParamSymbol, Namespace, Target,
};
use crate::hir::tree::{BuiltinFnName, CivilDateTimeLiteral, TimeScale};
use crate::syntax::ast::{
    AmbiguousGenericArg, BinOp, ForBinding, ForBindingIndex, Ident, IdentPath, IndexEntryKey, IndexExpr,
    MapEntryIndex, MapKeyAxisSyntax, MatchPattern, NamePath, NatExpr, PatternBinding, ScopedName, UnitExpr,
    UnitExprItem, UnitRef, UnresolvedRef,
};
use crate::syntax::names::{FieldName, FnName};
use crate::syntax::non_empty::NonEmpty;
use crate::syntax::span::{merged, Span, Spanned};
use crate::syntax::term::{
    node0, node1, node2, node3, node4, node5, pair, prepend, present, Spans, Symbol, Syntax, Tag, Term,
};
use crate::syntax::text::decimal;
use vstd::prelude::*;

verus! {

/// A local in scope.
pub struct Local {
    pub id: int,
    pub name: Seq<char>,
    pub span: Span,
}

impl Local {
    pub open spec fn to_term(self) -> Term {
        node3(
            Tag::HirLocalDef,
            node1(Tag::HirLocalId, Term::Int(self.id)),
            Term::Text(self.name),
            Term::At(self.span),
        )
    }
}

/// Where resolution stands: the scopes, the number of the next local, and the
/// errors so far.
pub struct St {
    pub scopes: Seq<Seq<Local>>,
    pub next: int,
    pub errors: Seq<Term>,
}

/// What resolving a part gives, if it resolves.
pub enum Low<T> {
    Done(T, St),
    Failed(Term),
}

pub open spec fn local_in(scope: Seq<Local>, name: Seq<char>, i: int) -> Option<int>
    decreases scope.len() - i,
{
    if i < 0 || i >= scope.len() {
        None
    } else if scope[i].name == name {
        Some(scope[i].id)
    } else {
        local_in(scope, name, i + 1)
    }
}

/// The local of a name: that of the innermost scope that has one.
pub open spec fn local_of_name(scopes: Seq<Seq<Local>>, name: Seq<char>) -> Option<int>
    decreases scopes.len(),
{
    if scopes.len() == 0 {
        None
    } else {
        match local_in(scopes.last(), name, 0) {
            Some(id) => Some(id),
            None => local_of_name(scopes.drop_last(), name),
        }
    }
}

/// A new local.
pub open spec fn allocated(st: St, name: Seq<char>, span: Span) -> Low<Local> {
    if st.next >= u32::MAX {
        Low::Failed(too_many_locals(span))
    } else {
        Low::Done(Local { id: st.next, name, span }, St { next: st.next + 1, ..st })
    }
}

/// The place of the first local before `n` with the name of the `n`th.
pub open spec fn earlier(locals: Seq<Local>, n: int, i: int) -> Option<int>
    decreases n - i,
{
    if i < 0 || i >= n {
        None
    } else if locals[i].name == locals[n].name {
        Some(i)
    } else {
        earlier(locals, n, i + 1)
    }
}

/// The first local, from the `n`th on, whose name an earlier one has.
pub open spec fn first_duplicate(locals: Seq<Local>, n: int) -> Option<Term>
    decreases locals.len() - n,
{
    if n < 0 || n >= locals.len() {
        None
    } else {
        match earlier(locals, n, 0) {
            Some(i) => Some(duplicate_local_binding(locals[n].name, locals[i].span, locals[n].span)),
            None => first_duplicate(locals, n + 1),
        }
    }
}

pub open spec fn entered(st: St, locals: Seq<Local>) -> St {
    St { scopes: st.scopes.push(locals), ..st }
}

pub open spec fn left(st: St) -> St {
    St { scopes: st.scopes.drop_last(), ..st }
}

// Spans and texts of syntax.

pub open spec fn ident_path_span(path: IdentPath) -> Span {
    merged(path.segments@[0].span, path.segments@.last().span)
}

pub open spec fn nat_span(n: NatExpr) -> Span {
    match n {
        NatExpr::Literal(_, span) => span,
        NatExpr::Var(ident) => ident.span,
        NatExpr::Add(_, span) => span,
        NatExpr::Mul(_, span) => span,
    }
}

/// A natural-number expression as it is written.
pub open spec fn nat_text(n: NatExpr) -> Seq<char>
    decreases n,
{
    match n {
        NatExpr::Literal(value, _) => decimal(value as nat),
        NatExpr::Var(ident) => ident.name.text@,
        NatExpr::Add(operands, _) => nats_text(operands, operands.len() as nat, " + "@),
        NatExpr::Mul(operands, _) => nats_text(operands, operands.len() as nat, " * "@),
    }
}

pub open spec fn nats_text(v: Vec<NatExpr>, n: nat, between: Seq<char>) -> Seq<char>
    decreases v, n,
{
    if n == 0 || n > v.len() {
        ""@
    } else if n == 1 {
        nat_text(v[0])
    } else {
        nats_text(v, (n - 1) as nat, between) + between + nat_text(v[n - 1])
    }
}

pub open spec fn index_expr_span(index: IndexExpr) -> Span {
    match index {
        IndexExpr::Name(path) => path.span,
        IndexExpr::Finite { cardinality, span } => span,
        IndexExpr::BareNat(n) => nat_span(n),
    }
}

pub open spec fn generic_arg_span(arg: ast::GenericArg) -> Span {
    match arg {
        ast::GenericArg::Type(t) => t.span,
        ast::GenericArg::Index(index) => index_expr_span(index),
        ast::GenericArg::Nat(n) => nat_span(n),
        ast::GenericArg::Ambiguous(AmbiguousGenericArg::Name(ident)) => ident.span,
        ast::GenericArg::Ambiguous(AmbiguousGenericArg::Mul(_, span)) => span,
    }
}

pub open spec fn first_arg_span(args: Seq<ast::GenericArg>, otherwise: Span) -> Span {
    if args.len() == 0 { otherwise } else { generic_arg_span(args[0]) }
}

// Names.

pub open spec fn has_tag(t: Term, tag: Tag) -> bool {
    match t {
        Term::Node(found, _) => found == tag,
        _ => false,
    }
}

/// The path of a scoped name.
pub open spec fn scoped_path(name: ScopedName) -> Seq<Seq<char>> {
    Seq::new(name.qualifier@.len(), |i: int| name.qualifier@[i].text@).push(name.member.text@)
}

/// The term of a scoped name with these names.
pub open spec fn scoped_term(path: Seq<Seq<char>>) -> Term {
    node2(
        Tag::ScopedName,
        Term::List(Seq::new((path.len() - 1) as nat, |i: int| Term::Text(path[i]))),
        Term::Text(path.last()),
    )
}

pub open spec fn index_of(c: Ctx, path: Seq<Seq<char>>) -> Result<Term, Term> {
    resolved(c.modules, Namespace::Index, Tag::HirResolvedIndexName, c.owner, path)
}

pub open spec fn constructor_of(c: Ctx, path: Seq<Seq<char>>) -> Result<Term, Term> {
    resolved(c.modules, Namespace::Constructor, Tag::HirResolvedConstructorName, c.owner, path)
}

/// An index, with where it is written.
#[verifier::opaque]
pub open spec fn spanned_index(c: Ctx, path: Spanned<NamePath>) -> Result<Term, Term> {
    match index_of(c, crate::hir::resolve::names_of(path.value)) {
        Ok(index) => Ok(pair(index, Term::At(path.span))),
        Err(error) => Err(module_resolve(error, path.span)),
    }
}

/// A declaration of a module inside this one.
pub open spec fn child_decl(c: Ctx, path: Seq<Seq<char>>) -> Option<Target> {
    if path.len() < 2 {
        None
    } else {
        let owner = c.owner + path.drop_last();
        match module_at(c.modules, owner, 0) {
            None => None,
            Some(m) => if symbol_at(c.modules[m].symbols@, Namespace::Decl, path.last(), 0) is Some {
                Some(Target { owner, name: path.last() })
            } else {
                None
            },
        }
    }
}

/// What a graph reference denotes.
#[verifier::opaque]
pub open spec fn graph_ref(c: Ctx, path: Seq<Seq<char>>, span: Span) -> Result<Term, Term> {
    match bound_decl(c.bindings, scoped_term(path), 0) {
        Some(target) => Ok(target.term(Spans::Kept)),
        None => match resolved(c.modules, Namespace::Decl, Tag::HirResolvedDeclName, c.owner, path) {
            Ok(target) => Ok(target),
            Err(error) => if has_tag(error, Tag::UnknownModuleAlias) && child_decl(c, path) is Some {
                Ok(target_term(Tag::HirResolvedDeclName, child_decl(c, path)->0))
            } else if has_tag(error, Tag::UnknownName) {
                Err(unknown_graph_ref(scoped_term(path), span))
            } else {
                Err(module_resolve(error, span))
            },
        },
    }
}

/// What a name of the language itself denotes as a constant.
pub open spec fn known_const(c: Ctx, name: Seq<char>) -> Option<Term> {
    match builtin_const(name) {
        Some(constant) => Some(node1(Tag::HirConstRefBuiltin, Term::Symbol(Symbol::BuiltinConst(constant)))),
        None => match time_scale(name) {
            Some(scale) => Some(node1(Tag::HirConstRefTimeScale, Term::Symbol(Symbol::TimeScale(scale)))),
            None => if is_nat_param(c.generics, name) {
                Some(node1(Tag::HirConstRefGenericNatParam, node1(Tag::HirGenericParamId, Term::Text(name))))
            } else {
                None
            },
        },
    }
}

/// What a name denotes as a constant.
#[verifier::opaque]
pub open spec fn const_ref(c: Ctx, path: Seq<Seq<char>>, span: Span) -> Result<Term, Term> {
    if path.len() <= 1 && known_const(c, path.last()) is Some {
        Ok(known_const(c, path.last())->0)
    } else {
        match bound_decl(c.bindings, scoped_term(path), 0) {
            Some(target) => Ok(node1(Tag::HirConstRefDecl, target.term(Spans::Kept))),
            None => declared_const(c, path, span),
        }
    }
}

/// What a name denotes among declared constants and constructors.
#[verifier::opaque]
pub open spec fn declared_const(c: Ctx, path: Seq<Seq<char>>, span: Span) -> Result<Term, Term> {
    match const_resolution(c.modules, c.owner, path) {
        Ok(target) => Ok(node1(Tag::HirConstRefDecl, target)),
        Err(error) => {
            let child = child_decl(c, path);
            if child is Some && decl_kind(c.modules, child->0) == Some(DeclSymbolKind::Const) {
                Ok(node1(Tag::HirConstRefDecl, target_term(Tag::HirResolvedDeclName, child->0)))
            } else {
                match constructor_of(c, path) {
                    Ok(constructor) => Ok(node1(Tag::HirConstRefConstructor, constructor)),
                    Err(_) => Err(module_resolve(error, span)),
                }
            }
        },
    }
}

/// What a bare name denotes in the type system, if anything.
#[verifier::opaque]
pub open spec fn type_system_ref(c: Ctx, name: Seq<char>, span: Span) -> Result<Option<Term>, Term> {
    let path = seq![name];
    match resolved(c.modules, Namespace::Type, Tag::HirResolvedStructTypeName, c.owner, path) {
        Ok(t) => Ok(Some(node1(Tag::HirTypeSystemRefType, t))),
        Err(_) => match resolved(c.modules, Namespace::Dim, Tag::HirResolvedDimName, c.owner, path) {
            Ok(dim) => Ok(Some(node1(Tag::HirTypeSystemRefDimension, dim))),
            Err(_) => match prelude_dimension(c, name) {
                Some(dim) => Ok(Some(node1(Tag::HirTypeSystemRefDimension, dim))),
                None => match index_of(c, path) {
                    Ok(index) => Ok(Some(node1(Tag::HirTypeSystemRefIndex, index))),
                    Err(_) => match bare_variant_resolution(c.modules, c.owner, name) {
                        Ok(variant) => Ok(Some(node1(Tag::HirTypeSystemRefIndexVariant, variant))),
                        Err(error) => if has_tag(error, Tag::UnknownName) {
                            Ok(None)
                        } else {
                            Err(module_resolve(error, span))
                        },
                    },
                },
            },
        },
    }
}

pub open spec fn prelude_dimension(c: Ctx, name: Seq<char>) -> Option<Term> {
    match c.prelude {
        Some(prelude) => if lists_dimension(prelude.dimensions@, name) {
            Some(
                target_term(
                    Tag::HirResolvedDimName,
                    Target { owner: crate::hir::visit::owner_of(prelude.owner), name },
                ),
            )
        } else {
            None
        },
        None => None,
    }
}

/// A constant where an expression stands.
pub open spec fn const_kind(constant: Result<Term, Term>, span: Span) -> Result<Term, Term> {
    match constant {
        Ok(constant) => Ok(node1(Tag::HirExprConstRef, pair(constant, Term::At(span)))),
        Err(error) => Err(error),
    }
}

/// What a bare name denotes that is no local.
#[verifier::opaque]
pub open spec fn module_ref(c: Ctx, name: Seq<char>, span: Span) -> Result<Term, Term> {
    if builtin_const(name) is Some || time_scale(name) is Some {
        const_kind(Ok(known_const(c, name)->0), span)
    } else {
        match constructor_of(c, seq![name]) {
            Ok(constructor) => Ok(
                node3(
                    Tag::HirExprConstructorCall,
                    pair(constructor, Term::At(span)),
                    Term::List(Seq::empty()),
                    Term::List(Seq::empty()),
                ),
            ),
            Err(_) => match type_system_ref(c, name, span) {
                Err(error) => Err(error),
                Ok(Some(t)) => Ok(node1(Tag::HirExprTypeSystemRef, pair(t, Term::At(span)))),
                Ok(None) => const_kind(const_ref(c, seq![name], span), span),
            },
        }
    }
}

/// What a bare name denotes where an expression stands.
pub open spec fn bare_ref(c: Ctx, st: St, name: Seq<char>, span: Span) -> Result<Term, Term> {
    match local_of_name(st.scopes, name) {
        Some(id) => Ok(
            node1(Tag::HirExprLocalRef, pair(node1(Tag::HirLocalId, Term::Int(id)), Term::At(span))),
        ),
        None => module_ref(c, name, span),
    }
}

/// A variant with the places of its parts.
pub open spec fn variant_ref(
    variant: Term,
    index_span: Option<Span>,
    additional: Seq<Span>,
    variant_span: Span,
) -> Term {
    node4(
        Tag::HirIndexVariantRef,
        variant,
        match index_span {
            Some(span) => present(Term::At(span)),
            None => Term::Absent,
        },
        Term::List(Seq::new(additional.len(), |i: int| Term::At(additional[i]))),
        Term::At(variant_span),
    )
}

/// A variant of an index, or why it is none: an unknown variant is blamed on
/// the variant, anything else on the index.
#[verifier::opaque]
pub open spec fn variant_parts(
    c: Ctx,
    index: Seq<Seq<char>>,
    variant: Seq<char>,
    index_span: Span,
    variant_span: Span,
) -> Result<Term, Term> {
    match variant_resolution(c.modules, c.owner, index, variant) {
        Ok(variant) => Ok(variant),
        Err(error) => Err(
            module_resolve(error, if has_tag(error, Tag::UnknownIndexVariant) { variant_span } else { index_span }),
        ),
    }
}

/// The span of the qualifier of a path: from its first name to its last but
/// one.
pub open spec fn qualifier_span(path: IdentPath, n: int) -> Span
    decreases n,
{
    if n <= 1 {
        path.segments@[0].span
    } else {
        merged(qualifier_span(path, n - 1), path.segments@[n - 1].span)
    }
}

/// The span of what stands before the last name of a path, if anything does.
pub open spec fn written_index_span(path: IdentPath) -> Option<Span> {
    if path.segments@.len() == 1 {
        None
    } else {
        Some(qualifier_span(path, path.segments@.len() - 1))
    }
}

/// What a path with dots denotes where an expression stands.
#[verifier::opaque]
pub open spec fn dotted_ref(c: Ctx, path: IdentPath) -> Result<Term, Term> {
    let names = idents_of(path);
    let span = ident_path_span(path);
    if names.len() == 2 && index_of(c, seq![names[0]]) is Ok {
        match variant_parts(c, seq![names[0]], names[1], path.segments@[0].span, path.segments@[1].span) {
            Err(error) => Err(error),
            Ok(variant) => Ok(
                node1(
                    Tag::HirExprVariantLiteral,
                    variant_ref(variant, Some(path.segments@[0].span), Seq::empty(), path.segments@[1].span),
                ),
            ),
        }
    } else {
        match const_ref(c, names, span) {
            Ok(constant) => const_kind(Ok(constant), span),
            Err(error) => match (written_index_span(path), variant_path_resolution(c.modules, c.owner, names)) {
                (Some(index_span), Ok(variant)) => Ok(
                    node1(
                        Tag::HirExprVariantLiteral,
                        variant_ref(variant, Some(index_span), Seq::empty(), path.segments@.last().span),
                    ),
                ),
                _ => Err(error),
            },
        }
    }
}

/// What a path denotes where an expression stands.
#[verifier::opaque]
pub open spec fn unresolved_ref(c: Ctx, st: St, path: IdentPath) -> Result<Term, Term> {
    if idents_of(path).len() == 1 {
        bare_ref(c, st, idents_of(path)[0], path.segments@[0].span)
    } else {
        dotted_ref(c, path)
    }
}

/// `@alias.member`, where that denotes a declaration of an imported module.
#[verifier::opaque]
pub open spec fn alias_field(c: Ctx, inner: ast::Expr, field: Spanned<FieldName>) -> Option<Term> {
    match inner.kind {
        ast::ExprKind::GraphRef(name) => if name.value.qualifier@.len() > 0 {
            None
        } else {
            match resolved(
                c.modules,
                Namespace::Decl,
                Tag::HirResolvedDeclName,
                c.owner,
                seq![name.value.member.text@, field.value.atom.text@],
            ) {
                Ok(target) => Some(
                    node1(Tag::HirExprGraphRef, pair(target, Term::At(merged(name.span, field.span)))),
                ),
                Err(_) => None,
            }
        },
        _ => None,
    }
}

// Units, natural numbers and generic arguments.

pub open spec fn unit_path(reference: UnitRef) -> Seq<Seq<char>> {
    match reference.qualifier {
        Some(qualifier) => seq![qualifier.text@, reference.name.atom.text@],
        None => seq![reference.name.atom.text@],
    }
}

/// The unit of the prelude or the registry that a reference names.
pub open spec fn ambient_unit(c: Ctx, reference: UnitRef) -> Option<Term> {
    let name = reference.name.atom.text@;
    if reference.qualifier is Some {
        None
    } else if c.prelude is Some && lists_unit(c.prelude->0.units@, name) {
        Some(
            target_term(
                Tag::HirResolvedUnitName,
                Target { owner: crate::hir::visit::owner_of(c.prelude->0.owner), name },
            ),
        )
    } else if c.units is Some && lists_unit(c.units->0, name) {
        Some(target_term(Tag::HirResolvedUnitName, Target { owner: c.owner, name }))
    } else {
        None
    }
}

#[verifier::opaque]
pub open spec fn unit_target(c: Ctx, reference: UnitRef, span: Span) -> Result<Term, Term> {
    match resolved(c.modules, Namespace::Unit, Tag::HirResolvedUnitName, c.owner, unit_path(reference)) {
        Ok(unit) => Ok(unit),
        Err(error) => if !has_tag(error, Tag::UnknownName) {
            Err(module_resolve(error, span))
        } else {
            match ambient_unit(c, reference) {
                Some(unit) => Ok(unit),
                None => Err(unknown_unit(reference.term(Spans::Kept), span)),
            }
        },
    }
}

/// The power of a unit: one, where none is written.
pub open spec fn effective_power(item: UnitExprItem) -> Term {
    match item.power {
        Some(power) => power.term(Spans::Kept),
        None => pair(Term::Int(1), Term::Int(1)),
    }
}

#[verifier::opaque]
pub open spec fn unit_item(c: Ctx, item: UnitExprItem) -> Result<Term, Term> {
    match unit_target(c, item.name.value, item.name.span) {
        Err(error) => Err(error),
        Ok(unit) => Ok(
            node3(
                Tag::HirResolvedUnitExprItem,
                Term::Symbol(Symbol::MulDivOp(item.op)),
                pair(
                    node2(Tag::HirResolvedUnitRef, item.name.value.term(Spans::Kept), unit),
                    Term::At(item.name.span),
                ),
                effective_power(item),
            ),
        ),
    }
}

pub open spec fn unit_items(c: Ctx, items: Seq<UnitExprItem>, n: nat) -> Result<Seq<Term>, Term>
    decreases n,
{
    if n == 0 || n > items.len() {
        Ok(Seq::empty())
    } else {
        match unit_items(c, items, (n - 1) as nat) {
            Err(error) => Err(error),
            Ok(before) => match unit_item(c, items[n - 1]) {
                Err(error) => Err(error),
                Ok(item) => Ok(before.push(item)),
            },
        }
    }
}

#[verifier::opaque]
pub open spec fn unit_expr(c: Ctx, unit: UnitExpr) -> Result<Term, Term> {
    match unit_items(c, unit.terms@, unit.terms@.len()) {
        Err(error) => Err(error),
        Ok(items) => Ok(node2(Tag::HirResolvedUnitExpr, Term::List(items), Term::At(unit.span))),
    }
}

pub open spec fn nat_param(name: Seq<char>, span: Span) -> Term {
    node2(Tag::HirNatExprParam, node1(Tag::HirGenericParamId, Term::Text(name)), Term::At(span))
}

/// What a natural-number expression denotes.
pub open spec fn nat_expr(c: Ctx, n: NatExpr) -> Result<Term, Term>
    decreases n,
{
    match n {
        NatExpr::Literal(value, span) => Ok(
            node2(Tag::HirNatExprLiteral, Term::Int(value as int), Term::At(span)),
        ),
        NatExpr::Var(ident) => if is_nat_param(c.generics, ident.name.text@) {
            Ok(nat_param(ident.name.text@, ident.span))
        } else {
            Err(unknown_nat_param(ident.name.text@, ident.span))
        },
        NatExpr::Add(operands, span) => match nat_exprs(c, operands, operands.len() as nat) {
            Ok(items) => Ok(node2(Tag::HirNatExprAdd, Term::List(items), Term::At(span))),
            Err(error) => Err(error),
        },
        NatExpr::Mul(operands, span) => match nat_exprs(c, operands, operands.len() as nat) {
            Ok(items) => Ok(node2(Tag::HirNatExprMul, Term::List(items), Term::At(span))),
            Err(error) => Err(error),
        },
    }
}

pub open spec fn nat_exprs(c: Ctx, v: Vec<NatExpr>, n: nat) -> Result<Seq<Term>, Term>
    decreases v, n,
{
    if n == 0 || n > v.len() {
        Ok(Seq::empty())
    } else {
        match nat_exprs(c, v, (n - 1) as nat) {
            Err(error) => Err(error),
            Ok(before) => match nat_expr(c, v[n - 1]) {
                Err(error) => Err(error),
                Ok(item) => Ok(before.push(item)),
            },
        }
    }
}

/// The generic parameters of a constructor.
pub open spec fn constructor_params(c: Ctx, target: Target) -> Seq<GenericParamSymbol> {
    generic_params_at(c.modules, Namespace::Constructor, target.owner, target.name)
}

// Functions.

/// A function that is called.
pub enum Fun {
    Builtin(BuiltinFnName),
    Epoch(TimeScale, Span),
    External(Term),
}

impl Fun {
    pub open spec fn to_term(self) -> Term {
        match self {
            Fun::Builtin(name) => node1(Tag::HirFunctionRefBuiltin, Term::Symbol(Symbol::BuiltinFnName(name))),
            Fun::Epoch(scale, span) => node1(
                Tag::HirFunctionRefEpoch,
                pair(Term::Symbol(Symbol::TimeScale(scale)), Term::At(span)),
            ),
            Fun::External(target) => node1(Tag::HirFunctionRefExternal, target),
        }
    }

    pub open spec fn builtin(self) -> Option<BuiltinFnName> {
        match self {
            Fun::Builtin(name) => Some(name),
            Fun::Epoch(_, _) => Some(BuiltinFnName::Epoch),
            Fun::External(_) => None,
        }
    }
}

pub open spec fn lists_function(functions: Seq<FnName>, name: Seq<char>) -> bool {
    exists|i: int| 0 <= i < functions.len() && (#[trigger] functions[i]).atom.text@ == name
}

/// The function that a path denotes.
#[verifier::opaque]
pub open spec fn function_ref(c: Ctx, callee: IdentPath) -> Result<Fun, Term> {
    let names = idents_of(callee);
    let unknown = Err(unknown_function(dotted_path(names), ident_path_span(callee)));
    if names.len() == 1 {
        match builtin_fn(names[0]) {
            Some(name) => Ok(Fun::Builtin(name)),
            None => unknown,
        }
    } else if names.len() != 2 {
        unknown
    } else {
        match plugin_at(c.modules, c.owner, names[0]) {
            None => unknown,
            Some(plugin) => if lists_function(plugin.functions@, names[1]) {
                Ok(
                    Fun::External(
                        node3(
                            Tag::HirExternFnRef,
                            plugin.path.term(Spans::Kept),
                            Term::Text(names[0]),
                            Term::Text(names[1]),
                        ),
                    ),
                )
            } else {
                Err(unknown_extern_function(names[0], names[1], ident_path_span(callee)))
            },
        }
    }
}

/// The time scale that `epoch<Scale>` names.
#[verifier::opaque]
pub open spec fn epoch_ref(args: Seq<ast::GenericArg>, callee_span: Span) -> Result<Fun, Term> {
    if args.len() != 1 {
        Err(epoch_time_scale_argument_count(args.len() as int, first_arg_span(args, callee_span)))
    } else {
        match args[0] {
            ast::GenericArg::Ambiguous(AmbiguousGenericArg::Name(ident)) => match time_scale(ident.name.text@) {
                Some(scale) => Ok(Fun::Epoch(scale, ident.span)),
                None => Err(unsupported_epoch_time_scale(ident.name.text@, ident.span)),
            },
            _ => Err(invalid_epoch_time_scale_argument(generic_arg_span(args[0]))),
        }
    }
}

/// A function with its generic arguments: only `epoch` takes any.
#[verifier::opaque]
pub open spec fn function_application(
    f: Fun,
    args: Seq<ast::GenericArg>,
    path: Seq<char>,
    callee_span: Span,
) -> Result<Fun, Term> {
    if f == Fun::Builtin(BuiltinFnName::Epoch) {
        epoch_ref(args, callee_span)
    } else if args.len() == 0 {
        Ok(f)
    } else {
        Err(unsupported_function_generic_args(path, first_arg_span(args, callee_span)))
    }
}

/// Why a number of arguments is wrong, if it is.
#[verifier::opaque]
pub open spec fn arity_error(f: Fun, got: int, span: Span) -> Option<Term> {
    match f.builtin() {
        None => None,
        Some(name) => match fixed_arity(name) {
            None => None,
            Some(expected) => if got == expected {
                None
            } else {
                Some(wrong_arity(name.text(), expected, got, span))
            },
        },
    }
}

// Dates and times.

#[verifier::opaque]
pub open spec fn civil_literal(text: Seq<char>, expectation: DatetimeLiteralExpectation, span: Span) -> Result<
    CivilDateTimeLiteral,
    Term,
> {
    match civil_datetime(text) {
        Ok(literal) => Ok(literal),
        Err(reason) => Err(invalid_datetime_literal(expectation, reason, span)),
    }
}

#[verifier::opaque]
pub open spec fn time_zone(c: Ctx, name: Seq<char>, span: Span) -> Result<Seq<char>, Term> {
    match time_zone_name(name) {
        Some(zone) => Ok(zone),
        None => Err(invalid_timezone(name, c.tzdb, span)),
    }
}

pub open spec fn zone_term(zone: Seq<char>) -> Term {
    node1(Tag::HirIanaTimeZoneId, Term::Text(zone))
}

/// A civil date and time in a time zone.
#[verifier::opaque]
pub open spec fn zoned_literal(
    datetime: CivilDateTimeLiteral,
    zone: Seq<char>,
    datetime_span: Span,
    zone_span: Span,
) -> Result<Term, Term> {
    match zoned_datetime(datetime, zone) {
        ZonedResult::Instant(second, nanosecond) => Ok(
            node4(
                Tag::HirZonedDateTimeLiteral,
                datetime.term(Spans::Kept),
                zone_term(zone),
                Term::Int(second as int),
                Term::Int(nanosecond as int),
            ),
        ),
        ZonedResult::Gap(before, after) => Err(
            nonexistent_civil_date_time(
                datetime.term(Spans::Kept),
                zone,
                before as int,
                after as int,
                datetime_span,
                zone_span,
            ),
        ),
        ZonedResult::Fold(before, after) => Err(
            repeated_civil_date_time(
                datetime.term(Spans::Kept),
                zone,
                before as int,
                after as int,
                datetime_span,
                zone_span,
            ),
        ),
        ZonedResult::NoZone => Err(
            time_zone_registry_invariant(zone, "the bundled database does not hold it"@, zone_span),
        ),
        ZonedResult::OutOfRange => Err(
            invalid_datetime_literal(
                DatetimeLiteralExpectation::ZonedCivilDateTime,
                "the instant is out of range"@,
                datetime_span,
            ),
        ),
    }
}

pub open spec fn hir_expr(kind: Term, span: Span) -> Term {
    node2(Tag::HirExpr, kind, Term::At(span))
}

// Expressions.

/// What an expression resolves to.
pub open spec fn lowered(c: Ctx, e: ast::Expr, st: St) -> (Term, St)
    decreases e, 2int,
{
    match lowered_kind(c, e, st) {
        Low::Done(kind, after) => (hir_expr(kind, e.span), after),
        Low::Failed(error) => {
            let (children, after) = error_children(c, e, St { errors: st.errors.push(error), ..st });
            (hir_expr(node1(Tag::HirExprError, Term::List(children)), e.span), after)
        },
    }
}

pub open spec fn lowered_exprs(c: Ctx, v: Vec<ast::Expr>, n: nat, st: St) -> (Seq<Term>, St)
    decreases v, n,
{
    if n == 0 || n > v.len() {
        (Seq::empty(), st)
    } else {
        let (before, middle) = lowered_exprs(c, v, (n - 1) as nat, st);
        let (item, after) = lowered(c, v[n - 1], middle);
        (before.push(item), after)
    }
}

pub open spec fn lowered_field_values(c: Ctx, v: Vec<ast::FieldInit>, n: nat, st: St) -> (Seq<Term>, St)
    decreases v, n,
{
    if n == 0 || n > v.len() {
        (Seq::empty(), st)
    } else {
        let (before, middle) = lowered_field_values(c, v, (n - 1) as nat, st);
        let (item, after) = lowered(c, v[n - 1].value, middle);
        (before.push(item), after)
    }
}

pub open spec fn lowered_arm_bodies(c: Ctx, v: Vec<ast::MatchArm>, n: nat, st: St) -> (Seq<Term>, St)
    decreases v, n,
{
    if n == 0 || n > v.len() {
        (Seq::empty(), st)
    } else {
        let (before, middle) = lowered_arm_bodies(c, v, (n - 1) as nat, st);
        let (item, after) = lowered(c, v[n - 1].body, middle);
        (before.push(item), after)
    }
}

pub open spec fn lowered_binding_values(c: Ctx, v: Vec<ast::ParamBinding>, n: nat, st: St) -> (Seq<Term>, St)
    decreases v, n,
{
    if n == 0 || n > v.len() {
        (Seq::empty(), st)
    } else {
        let (before, middle) = lowered_binding_values(c, v, (n - 1) as nat, st);
        let (item, after) = lowered(c, v[n - 1].value, middle);
        (before.push(item), after)
    }
}

/// The expression of an index argument, if it is one.
pub open spec fn lowered_arg_expr(c: Ctx, arg: ast::IndexArg, st: St) -> (Seq<Term>, St)
    decreases arg,
{
    match arg {
        ast::IndexArg::Expr(e) => {
            let (item, after) = lowered(c, *e, st);
            (seq![item], after)
        },
        _ => (Seq::empty(), st),
    }
}

pub open spec fn lowered_arg_exprs(c: Ctx, v: Vec<ast::IndexArg>, n: nat, st: St) -> (Seq<Term>, St)
    decreases v, n,
{
    if n == 0 || n > v.len() {
        (Seq::empty(), st)
    } else {
        let (before, middle) = lowered_arg_exprs(c, v, (n - 1) as nat, st);
        let (items, after) = lowered_arg_expr(c, v[n - 1], middle);
        (before + items, after)
    }
}

/// The expression of a map key, if it is one.
pub open spec fn lowered_key_expr(c: Ctx, key: ast::MapEntryKey, st: St) -> (Seq<Term>, St)
    decreases key,
{
    match key {
        ast::MapEntryKey::Expression { axis, expr } => {
            let (item, after) = lowered(c, expr, st);
            (seq![item], after)
        },
        _ => (Seq::empty(), st),
    }
}

pub open spec fn lowered_key_exprs(c: Ctx, v: Vec<ast::MapEntryKey>, n: nat, st: St) -> (Seq<Term>, St)
    decreases v, n,
{
    if n == 0 || n > v.len() {
        (Seq::empty(), st)
    } else {
        let (before, middle) = lowered_key_exprs(c, v, (n - 1) as nat, st);
        let (items, after) = lowered_key_expr(c, v[n - 1], middle);
        (before + items, after)
    }
}

/// The expressions of a map entry: those of its keys, then its value.
pub open spec fn lowered_entry_exprs(c: Ctx, entry: ast::MapEntry, st: St) -> (Seq<Term>, St)
    decreases entry,
{
    let (first, a) = lowered_key_expr(c, *entry.keys.first, st);
    let (rest, b) = lowered_key_exprs(c, entry.keys.rest, entry.keys.rest.len() as nat, a);
    let (value, after) = lowered(c, entry.value, b);
    (first + rest + seq![value], after)
}

pub open spec fn lowered_entries_exprs(c: Ctx, v: Vec<ast::MapEntry>, n: nat, st: St) -> (Seq<Term>, St)
    decreases v, n,
{
    if n == 0 || n > v.len() {
        (Seq::empty(), st)
    } else {
        let (before, middle) = lowered_entries_exprs(c, v, (n - 1) as nat, st);
        let (items, after) = lowered_entry_exprs(c, v[n - 1], middle);
        (before + items, after)
    }
}

/// The sub-expressions of an expression that does not resolve.
pub open spec fn error_children(c: Ctx, e: ast::Expr, st: St) -> (Seq<Term>, St)
    decreases e, 1int,
{
    match e.kind {
        ast::ExprKind::BinOp { op, lhs, rhs } => {
            let (l, a) = lowered(c, *lhs, st);
            let (r, b) = lowered(c, *rhs, a);
            (seq![l, r], b)
        },
        ast::ExprKind::UnaryOp { op, operand } => {
            let (t, a) = lowered(c, *operand, st);
            (seq![t], a)
        },
        ast::ExprKind::FnCall { callee, generic_args, args } => lowered_exprs(c, args, args.len() as nat, st),
        ast::ExprKind::If { condition, then_branch, else_branch } => {
            let (x, a) = lowered(c, *condition, st);
            let (y, b) = lowered(c, *then_branch, a);
            let (z, d) = lowered(c, *else_branch, b);
            (seq![x, y, z], d)
        },
        ast::ExprKind::Convert { expr, target } => {
            let (t, a) = lowered(c, *expr, st);
            (seq![t], a)
        },
        ast::ExprKind::DisplayTimezone { expr, timezone } => {
            let (t, a) = lowered(c, *expr, st);
            (seq![t], a)
        },
        ast::ExprKind::FieldAccess { expr, field } => {
            let (t, a) = lowered(c, *expr, st);
            (seq![t], a)
        },
        ast::ExprKind::ConstructorCall { callee, generic_args, fields } => lowered_field_values(
            c,
            fields,
            fields.len() as nat,
            st,
        ),
        ast::ExprKind::MapLiteral { entries } => lowered_entries_exprs(c, entries, entries.len() as nat, st),
        ast::ExprKind::ForComp { bindings, body } => {
            let (t, a) = lowered(c, *body, st);
            (seq![t], a)
        },
        ast::ExprKind::IndexAccess { expr, args } => {
            let (t, a) = lowered(c, *expr, st);
            let (first, b) = lowered_arg_expr(c, *args.first, a);
            let (rest, d) = lowered_arg_exprs(c, args.rest, args.rest.len() as nat, b);
            (seq![t] + first + rest, d)
        },
        ast::ExprKind::Scan { source, init, acc_name, val_name, body } => {
            let (x, a) = lowered(c, *source, st);
            let (y, b) = lowered(c, *init, a);
            let (z, d) = lowered(c, *body, b);
            (seq![x, y, z], d)
        },
        ast::ExprKind::Unfold { axis, init, prev_state_name, prev_index_name, index_name, body } => {
            let (x, a) = lowered(c, *init, st);
            let (y, b) = lowered(c, *body, a);
            (seq![x, y], b)
        },
        ast::ExprKind::KeyForm { kind, axis, arg } => {
            let (t, a) = lowered(c, *arg, st);
            (seq![t], a)
        },
        ast::ExprKind::Match { scrutinee, arms } => {
            let (t, a) = lowered(c, *scrutinee, st);
            let (rest, b) = lowered_arm_bodies(c, arms, arms.len() as nat, a);
            (seq![t] + rest, b)
        },
        ast::ExprKind::InlineDagRef { path, args, output } => lowered_binding_values(c, args, args.len() as nat, st),
        _ => (Seq::empty(), st),
    }
}

pub open spec fn pure<T>(r: Result<T, Term>, st: St) -> Low<T> {
    match r {
        Ok(t) => Low::Done(t, st),
        Err(error) => Low::Failed(error),
    }
}

/// One argument of a function: a single text is a date and time where the
/// function takes one.
pub open spec fn function_arg(c: Ctx, f: Fun, only: bool, arg: ast::Expr, st: St) -> Low<Term>
    decreases arg, 3int,
{
    match arg.kind {
        ast::ExprKind::StringLiteral(text) => if only && f == Fun::Builtin(BuiltinFnName::Datetime) {
            match offset_datetime(text@) {
                Ok(literal) => Low::Done(
                    hir_expr(node1(Tag::HirExprOffsetDateTimeLiteral, literal.term(Spans::Kept)), arg.span),
                    st,
                ),
                Err(reason) => Low::Failed(
                    invalid_datetime_literal(DatetimeLiteralExpectation::OffsetDateTime, reason, arg.span),
                ),
            }
        } else if only && f is Epoch {
            match civil_literal(text@, DatetimeLiteralExpectation::Epoch(f->Epoch_0), arg.span) {
                Ok(literal) => Low::Done(
                    hir_expr(node1(Tag::HirExprCivilDateTimeLiteral, literal.term(Spans::Kept)), arg.span),
                    st,
                ),
                Err(error) => Low::Failed(error),
            }
        } else {
            let (t, after) = lowered(c, arg, st);
            Low::Done(t, after)
        },
        _ => {
            let (t, after) = lowered(c, arg, st);
            Low::Done(t, after)
        },
    }
}

pub open spec fn function_args_upto(c: Ctx, f: Fun, v: Vec<ast::Expr>, n: nat, st: St) -> Low<Seq<Term>>
    decreases v, n,
{
    if n == 0 || n > v.len() {
        Low::Done(Seq::empty(), st)
    } else {
        match function_args_upto(c, f, v, (n - 1) as nat, st) {
            Low::Failed(error) => Low::Failed(error),
            Low::Done(before, middle) => match function_arg(c, f, v.len() == 1, v[n - 1], middle) {
                Low::Failed(error) => Low::Failed(error),
                Low::Done(item, after) => Low::Done(before.push(item), after),
            },
        }
    }
}

/// The date and time of `datetime(text, zone)`: what it resolves to, and its
/// parts where it is written out.
pub open spec fn zoned_datetime_arg(c: Ctx, arg: ast::Expr, st: St) -> Low<(Term, Option<CivilDateTimeLiteral>)>
    decreases arg, 3int,
{
    match arg.kind {
        ast::ExprKind::StringLiteral(text) => match civil_literal(
            text@,
            DatetimeLiteralExpectation::ZonedCivilDateTime,
            arg.span,
        ) {
            Ok(literal) => Low::Done(
                (
                    hir_expr(node1(Tag::HirExprCivilDateTimeLiteral, literal.term(Spans::Kept)), arg.span),
                    Some(literal),
                ),
                st,
            ),
            Err(error) => Low::Failed(error),
        },
        _ => {
            let (t, after) = lowered(c, arg, st);
            Low::Done((t, None), after)
        },
    }
}

/// The time zone of `datetime(text, zone)`: what it resolves to, and its name
/// where it is written out.
pub open spec fn zone_arg(c: Ctx, arg: ast::Expr, st: St) -> Low<(Term, Option<Seq<char>>)>
    decreases arg, 3int,
{
    match arg.kind {
        ast::ExprKind::StringLiteral(text) => match time_zone(c, text@, arg.span) {
            Ok(zone) => Low::Done(
                (hir_expr(node1(Tag::HirExprIanaTimeZoneLiteral, zone_term(zone)), arg.span), Some(zone)),
                st,
            ),
            Err(error) => Low::Failed(error),
        },
        _ => {
            let (t, after) = lowered(c, arg, st);
            Low::Done((t, None), after)
        },
    }
}

/// The arguments of `datetime(text, zone)`.
pub open spec fn zoned_args(c: Ctx, v: Vec<ast::Expr>, st: St) -> Low<Seq<Term>>
    decreases v, 0nat,
{
    if v.len() != 2 {
        Low::Done(Seq::empty(), st)
    } else {
        match zoned_datetime_arg(c, v[0], st) {
            Low::Failed(error) => Low::Failed(error),
            Low::Done((datetime, literal), middle) => match zone_arg(c, v[1], middle) {
                Low::Failed(error) => Low::Failed(error),
                Low::Done((zone, name), after) => if literal is Some && name is Some {
                    match zoned_literal(literal->0, name->0, v[0].span, v[1].span) {
                        Ok(t) => Low::Done(
                            seq![hir_expr(node1(Tag::HirExprZonedDateTimeLiteral, t), v[0].span), zone],
                            after,
                        ),
                        Err(error) => Low::Failed(error),
                    }
                } else {
                    Low::Done(seq![datetime, zone], after)
                },
            },
        }
    }
}

pub open spec fn function_args(c: Ctx, f: Fun, v: Vec<ast::Expr>, st: St) -> Low<Seq<Term>>
    decreases v, v.len() + 1,
{
    if f == Fun::Builtin(BuiltinFnName::Datetime) && v.len() == 2 {
        zoned_args(c, v, st)
    } else {
        function_args_upto(c, f, v, v.len() as nat, st)
    }
}

/// A function call.
pub open spec fn lowered_call(
    c: Ctx,
    callee: IdentPath,
    generics: Vec<ast::GenericArg>,
    args: Vec<ast::Expr>,
    st: St,
) -> Low<Term>
    decreases args, args.len() + 2,
{
    let span = ident_path_span(callee);
    match function_ref(c, callee) {
        Err(error) => Low::Failed(error),
        Ok(named) => match function_application(named, generics@, dotted_path(idents_of(callee)), span) {
            Err(error) => Low::Failed(error),
            Ok(f) => match arity_error(f, args.len() as int, span) {
                Some(error) => Low::Failed(error),
                None => match function_args(c, f, args, st) {
                    Low::Failed(error) => Low::Failed(error),
                    Low::Done(items, after) => Low::Done(
                        node2(Tag::HirExprFnCall, pair(f.to_term(), Term::At(span)), Term::List(items)),
                        after,
                    ),
                },
            },
        },
    }
}

pub open spec fn lowered_fields(c: Ctx, v: Vec<ast::FieldInit>, n: nat, st: St) -> (Seq<Term>, St)
    decreases v, n,
{
    if n == 0 || n > v.len() {
        (Seq::empty(), st)
    } else {
        let (before, middle) = lowered_fields(c, v, (n - 1) as nat, st);
        let (value, after) = lowered(c, v[n - 1].value, middle);
        (before.push(node2(Tag::HirFieldInit, v[n - 1].name.term(Spans::Kept), value)), after)
    }
}

pub open spec fn field_names(v: Vec<ast::FieldInit>) -> Term {
    Term::List(Seq::new(v.len() as nat, |i: int| Term::Text(v[i].name.value.atom.text@)))
}

/// A call with named arguments: a constructor, or an error that depends on
/// whether the name is a function.
pub open spec fn lowered_constructor(
    c: Ctx,
    callee: IdentPath,
    generics: Vec<ast::GenericArg>,
    fields: Vec<ast::FieldInit>,
    span: Span,
    st: St,
) -> Low<Term>
    decreases fields, fields.len() + 1,
{
    match resolution(c.modules, Namespace::Constructor, c.owner, idents_of(callee)) {
        Err(error) => match function_ref(c, callee) {
            Ok(f) => Low::Failed(named_arguments_on_function(f.to_term(), field_names(fields), span)),
            Err(_) => Low::Failed(module_resolve(error, ident_path_span(callee))),
        },
        Ok(target) => match generic_args(c, target.name, constructor_params(c, target), generics, span) {
            Err(error) => Low::Failed(error),
            Ok(args) => {
                let (items, after) = lowered_fields(c, fields, fields.len() as nat, st);
                Low::Done(
                    node3(
                        Tag::HirExprConstructorCall,
                        pair(
                            target_term(Tag::HirResolvedConstructorName, target),
                            Term::At(ident_path_span(callee)),
                        ),
                        Term::List(args),
                        Term::List(items),
                    ),
                    after,
                )
            },
        },
    }
}

/// A map key.
pub open spec fn lowered_key(c: Ctx, key: ast::MapEntryKey, map_span: Span, st: St) -> Low<Term>
    decreases key,
{
    match key {
        ast::MapEntryKey::Expression { axis, expr } => {
            let axis = match axis {
                MapKeyAxisSyntax::Explicit(index) => match spanned_index(c, index) {
                    Ok(index) => Ok(node1(Tag::HirMapKeyAxisExplicit, index)),
                    Err(error) => Err(error),
                },
                MapKeyAxisSyntax::Contextual => Ok(node0(Tag::HirMapKeyAxisContextual)),
            };
            match axis {
                Err(error) => Low::Failed(error),
                Ok(axis) => {
                    let (t, after) = lowered(c, expr, st);
                    Low::Done(node2(Tag::HirMapEntryKeyExpression, axis, t), after)
                },
            }
        },
        ast::MapEntryKey::Discrete { index, additional_index_spans, entry } => pure(
            discrete_key(c, index, additional_index_spans@, entry, map_span),
            st,
        ),
    }
}

/// A discrete map key.
#[verifier::opaque]
pub open spec fn discrete_key(
    c: Ctx,
    index: Spanned<MapEntryIndex>,
    additional: Seq<Span>,
    entry: Spanned<IndexEntryKey>,
    map_span: Span,
) -> Result<Term, Term> {
    match (index.value, entry.value) {
        (MapEntryIndex::Named(path), IndexEntryKey::Named(name)) => {
            let names = crate::hir::resolve::names_of(path);
            match resolution(c.modules, Namespace::Index, c.owner, names) {
                Err(error) => Err(module_resolve(error, index.span)),
                Ok(target) => match variant_resolution(c.modules, c.owner, names, name.atom.text@) {
                    Ok(variant) => Ok(
                        node1(
                            Tag::HirMapEntryKeyIndexVariant,
                            variant_ref(variant, Some(index.span), additional, entry.span),
                        ),
                    ),
                    Err(_) => Err(extra_map_variant(target.name, name.atom.text@, map_span)),
                },
            }
        },
        (MapEntryIndex::Finite(size), IndexEntryKey::Position(position)) => Ok(
            node2(
                Tag::HirMapEntryKeyFinitePosition,
                Term::Int(size as int),
                pair(Term::Int(position as int), Term::At(entry.span)),
            ),
        ),
        _ => Err(invalid_map_entry_key(entry.span)),
    }
}

pub open spec fn lowered_keys(c: Ctx, v: Vec<ast::MapEntryKey>, n: nat, map_span: Span, st: St) -> Low<Seq<Term>>
    decreases v, n,
{
    if n == 0 || n > v.len() {
        Low::Done(Seq::empty(), st)
    } else {
        match lowered_keys(c, v, (n - 1) as nat, map_span, st) {
            Low::Failed(error) => Low::Failed(error),
            Low::Done(before, middle) => match lowered_key(c, v[n - 1], map_span, middle) {
                Low::Failed(error) => Low::Failed(error),
                Low::Done(item, after) => Low::Done(before.push(item), after),
            },
        }
    }
}

pub open spec fn lowered_entry(c: Ctx, entry: ast::MapEntry, map_span: Span, st: St) -> Low<Term>
    decreases entry,
{
    match lowered_key(c, *entry.keys.first, map_span, st) {
        Low::Failed(error) => Low::Failed(error),
        Low::Done(first, a) => match lowered_keys(c, entry.keys.rest, entry.keys.rest.len() as nat, map_span, a) {
            Low::Failed(error) => Low::Failed(error),
            Low::Done(rest, b) => {
                let (value, after) = lowered(c, entry.value, b);
                Low::Done(node2(Tag::HirMapEntry, Term::List(prepend(first, rest)), value), after)
            },
        },
    }
}

pub open spec fn lowered_entries(c: Ctx, v: Vec<ast::MapEntry>, n: nat, map_span: Span, st: St) -> Low<Seq<Term>>
    decreases v, n,
{
    if n == 0 || n > v.len() {
        Low::Done(Seq::empty(), st)
    } else {
        match lowered_entries(c, v, (n - 1) as nat, map_span, st) {
            Low::Failed(error) => Low::Failed(error),
            Low::Done(before, middle) => match lowered_entry(c, v[n - 1], map_span, middle) {
                Low::Failed(error) => Low::Failed(error),
                Low::Done(item, after) => Low::Done(before.push(item), after),
            },
        }
    }
}

/// The index that a comprehension runs over.
#[verifier::opaque]
pub open spec fn for_index(c: Ctx, index: ForBindingIndex) -> Result<Term, Term> {
    match index {
        ForBindingIndex::Named(path) => match spanned_index(c, path) {
            Ok(index) => Ok(node1(Tag::HirForBindingIndexNamed, index)),
            Err(error) => Err(error),
        },
        ForBindingIndex::Finite { cardinality, span } => match nat_expr(c, cardinality) {
            Ok(n) => Ok(node2(Tag::HirForBindingIndexFinite, n, Term::At(span))),
            Err(error) => Err(error),
        },
    }
}

#[verifier::opaque]
pub open spec fn for_binding(c: Ctx, binding: ForBinding, st: St) -> Low<(Term, Local)> {
    match allocated(st, binding.var.value.atom.text@, binding.var.span) {
        Low::Failed(error) => Low::Failed(error),
        Low::Done(local, after) => match for_index(c, binding.index) {
            Err(error) => Low::Failed(error),
            Ok(index) => Low::Done((node2(Tag::HirForBinding, local.to_term(), index), local), after),
        },
    }
}

pub open spec fn for_bindings(c: Ctx, v: Seq<ForBinding>, n: nat, st: St) -> Low<(Seq<Term>, Seq<Local>)>
    decreases n,
{
    if n == 0 || n > v.len() {
        Low::Done((Seq::empty(), Seq::empty()), st)
    } else {
        match for_bindings(c, v, (n - 1) as nat, st) {
            Low::Failed(error) => Low::Failed(error),
            Low::Done((items, locals), middle) => match for_binding(c, v[n - 1], middle) {
                Low::Failed(error) => Low::Failed(error),
                Low::Done((item, local), after) => Low::Done((items.push(item), locals.push(local)), after),
            },
        }
    }
}

/// An expression inside a scope with more locals.
pub open spec fn lowered_in(c: Ctx, e: ast::Expr, locals: Seq<Local>, st: St) -> Low<Term>
    decreases e, 3int,
{
    match first_duplicate(locals, 0) {
        Some(error) => Low::Failed(error),
        None => {
            let (t, after) = lowered(c, e, entered(st, locals));
            Low::Done(t, left(after))
        },
    }
}

pub open spec fn index_arg(c: Ctx, arg: ast::IndexArg, st: St) -> Low<Term>
    decreases arg,
{
    match arg {
        ast::IndexArg::Variant { index, variant } => pure(
            match variant_parts(
                c,
                crate::hir::resolve::names_of(index.value),
                variant.value.atom.text@,
                index.span,
                variant.span,
            ) {
                Ok(t) => Ok(
                    node1(
                        Tag::HirIndexArgVariant,
                        variant_ref(t, Some(index.span), Seq::empty(), variant.span),
                    ),
                ),
                Err(error) => Err(error),
            },
            st,
        ),
        ast::IndexArg::Var(ident) => match local_of_name(st.scopes, ident.name.text@) {
            Some(id) => Low::Done(
                node1(
                    Tag::HirIndexArgVar,
                    pair(node1(Tag::HirLocalId, Term::Int(id)), Term::At(ident.span)),
                ),
                st,
            ),
            None => Low::Failed(unknown_local_ref(ident.name.text@, ident.span)),
        },
        ast::IndexArg::Expr(e) => {
            let (t, after) = lowered(c, *e, st);
            Low::Done(node1(Tag::HirIndexArgExpr, t), after)
        },
    }
}

pub open spec fn index_args(c: Ctx, v: Vec<ast::IndexArg>, n: nat, st: St) -> Low<Seq<Term>>
    decreases v, n,
{
    if n == 0 || n > v.len() {
        Low::Done(Seq::empty(), st)
    } else {
        match index_args(c, v, (n - 1) as nat, st) {
            Low::Failed(error) => Low::Failed(error),
            Low::Done(before, middle) => match index_arg(c, v[n - 1], middle) {
                Low::Failed(error) => Low::Failed(error),
                Low::Done(item, after) => Low::Done(before.push(item), after),
            },
        }
    }
}

#[verifier::opaque]
pub open spec fn pattern_binding(binding: PatternBinding, st: St) -> Low<(Term, Seq<Local>)> {
    match binding {
        PatternBinding::Bind { field, var } => match allocated(st, var.name.text@, var.span) {
            Low::Failed(error) => Low::Failed(error),
            Low::Done(local, after) => Low::Done(
                (node2(Tag::HirPatternBindingBind, field.term(Spans::Kept), local.to_term()), seq![local]),
                after,
            ),
        },
        PatternBinding::Wildcard { field, span } => Low::Done(
            (node2(Tag::HirPatternBindingWildcard, field.term(Spans::Kept), Term::At(span)), Seq::empty()),
            st,
        ),
    }
}

pub open spec fn pattern_bindings(v: Seq<PatternBinding>, n: nat, st: St) -> Low<(Seq<Term>, Seq<Local>)>
    decreases n,
{
    if n == 0 || n > v.len() {
        Low::Done((Seq::empty(), Seq::empty()), st)
    } else {
        match pattern_bindings(v, (n - 1) as nat, st) {
            Low::Failed(error) => Low::Failed(error),
            Low::Done((items, locals), middle) => match pattern_binding(v[n - 1], middle) {
                Low::Failed(error) => Low::Failed(error),
                Low::Done((item, more), after) => Low::Done((items.push(item), locals + more), after),
            },
        }
    }
}

/// A pattern over a constructor.
#[verifier::opaque]
pub open spec fn constructor_pattern(
    constructor: Term,
    at: Span,
    bindings: Seq<PatternBinding>,
    span: Span,
    st: St,
) -> Low<(Term, Seq<Local>)> {
    match pattern_bindings(bindings, bindings.len(), st) {
        Low::Failed(error) => Low::Failed(error),
        Low::Done((items, locals), after) => Low::Done(
            (
                node3(
                    Tag::HirMatchPatternConstructor,
                    pair(constructor, Term::At(at)),
                    Term::List(items),
                    Term::At(span),
                ),
                locals,
            ),
            after,
        ),
    }
}

/// A pattern that is a path: a variant where nothing is bound and one has this
/// name, else a constructor. The index of a variant may be left to be inferred.
#[verifier::opaque]
pub open spec fn path_pattern(c: Ctx, path: IdentPath, bindings: Seq<PatternBinding>, span: Span, st: St) -> Low<
    (Term, Seq<Local>),
> {
    let names = idents_of(path);
    let variant = variant_path_resolution(c.modules, c.owner, names);
    if bindings.len() == 0 && variant is Ok {
        Low::Done(
            (
                node2(
                    Tag::HirMatchPatternIndexLabel,
                    variant_ref(
                        variant->Ok_0,
                        written_index_span(path),
                        Seq::empty(),
                        path.segments@.last().span,
                    ),
                    Term::At(span),
                ),
                Seq::empty(),
            ),
            st,
        )
    } else {
        match constructor_of(c, names) {
            Ok(constructor) => constructor_pattern(constructor, ident_path_span(path), bindings, span, st),
            Err(error) => if has_tag(error, Tag::UnknownName) || has_tag(error, Tag::UnknownModuleAlias) || has_tag(
                error,
                Tag::UnknownModule,
            ) {
                Low::Failed(unknown_pattern(dotted_path(names), span))
            } else {
                Low::Failed(module_resolve(error, span))
            },
        }
    }
}

#[verifier::opaque]
pub open spec fn match_pattern(c: Ctx, pattern: MatchPattern, st: St) -> Low<(Term, Seq<Local>)> {
    match pattern {
        MatchPattern::Path { path, bindings, span } => path_pattern(c, path, bindings@, span, st),
        MatchPattern::Constructor { name, bindings, span } => match constructor_of(c, seq![name.value.atom.text@]) {
            Ok(constructor) => constructor_pattern(constructor, name.span, bindings@, span, st),
            Err(error) => Low::Failed(module_resolve(error, name.span)),
        },
        MatchPattern::IndexLabel { index, variant, span } => match variant_parts(
            c,
            crate::hir::resolve::names_of(index.value),
            variant.value.atom.text@,
            index.span,
            variant.span,
        ) {
            Ok(t) => Low::Done(
                (
                    node2(
                        Tag::HirMatchPatternIndexLabel,
                        variant_ref(t, Some(index.span), Seq::empty(), variant.span),
                        Term::At(span),
                    ),
                    Seq::empty(),
                ),
                st,
            ),
            Err(error) => Low::Failed(error),
        },
    }
}

pub open spec fn lowered_arm(c: Ctx, arm: ast::MatchArm, st: St) -> Low<Term>
    decreases arm,
{
    match match_pattern(c, arm.pattern, st) {
        Low::Failed(error) => Low::Failed(error),
        Low::Done((pattern, locals), middle) => match lowered_in(c, arm.body, locals, middle) {
            Low::Failed(error) => Low::Failed(error),
            Low::Done(body, after) => Low::Done(
                node3(Tag::HirMatchArm, pattern, body, Term::At(arm.span)),
                after,
            ),
        },
    }
}

pub open spec fn lowered_arms(c: Ctx, v: Vec<ast::MatchArm>, n: nat, st: St) -> Low<Seq<Term>>
    decreases v, n,
{
    if n == 0 || n > v.len() {
        Low::Done(Seq::empty(), st)
    } else {
        match lowered_arms(c, v, (n - 1) as nat, st) {
            Low::Failed(error) => Low::Failed(error),
            Low::Done(before, middle) => match lowered_arm(c, v[n - 1], middle) {
                Low::Failed(error) => Low::Failed(error),
                Low::Done(item, after) => Low::Done(before.push(item), after),
            },
        }
    }
}

/// A binding of an inline DAG call.
pub open spec fn param_binding(c: Ctx, target: Seq<Seq<char>>, binding: ast::ParamBinding, st: St) -> Low<Term>
    decreases binding,
{
    match resolved(
        c.modules,
        Namespace::Decl,
        Tag::HirResolvedDeclName,
        target,
        seq![binding.name.name.text@],
    ) {
        Err(error) => Low::Failed(module_resolve(error, binding.name.span)),
        Ok(name) => {
            let (value, after) = lowered(c, binding.value, st);
            Low::Done(node2(Tag::HirParamBinding, pair(name, Term::At(binding.name.span)), value), after)
        },
    }
}

pub open spec fn param_bindings(c: Ctx, target: Seq<Seq<char>>, v: Vec<ast::ParamBinding>, n: nat, st: St) -> Low<
    Seq<Term>,
>
    decreases v, n,
{
    if n == 0 || n > v.len() {
        Low::Done(Seq::empty(), st)
    } else {
        match param_bindings(c, target, v, (n - 1) as nat, st) {
            Low::Failed(error) => Low::Failed(error),
            Low::Done(before, middle) => match param_binding(c, target, v[n - 1], middle) {
                Low::Failed(error) => Low::Failed(error),
                Low::Done(item, after) => Low::Done(before.push(item), after),
            },
        }
    }
}

/// The names of the segments of a path.
pub open spec fn segment_names(segments: NonEmpty<Ident>) -> Seq<Seq<char>> {
    Seq::new(segments@.len(), |i: int| segments@[i].name.text@)
}

/// An inline DAG call.
pub open spec fn dag_call(
    c: Ctx,
    path: crate::syntax::ast::ModulePath,
    args: Vec<ast::ParamBinding>,
    output: Spanned<crate::syntax::names::DeclName>,
    st: St,
) -> Low<Term>
    decreases args, args.len() + 1,
{
    match module_resolution(c.modules, c.owner, segment_names(path.segments)) {
        Err(error) => Low::Failed(module_resolve(error, path.span)),
        Ok(target) => match param_bindings(c, target, args, args.len() as nat, st) {
            Low::Failed(error) => Low::Failed(error),
            Low::Done(items, after) => match resolved(
                c.modules,
                Namespace::Decl,
                Tag::HirResolvedDeclName,
                target,
                seq![output.value.atom.text@],
            ) {
                Err(error) => Low::Failed(module_resolve(error, output.span)),
                Ok(name) => Low::Done(
                    node3(
                        Tag::HirExprDagCall,
                        pair(dag_term(target), Term::At(path.span)),
                        Term::List(items),
                        pair(name, Term::At(output.span)),
                    ),
                    after,
                ),
            },
        },
    }
}

/// The axis of a key form.
#[verifier::opaque]
pub open spec fn key_axis(c: Ctx, axis: IndexExpr) -> Result<Term, Term> {
    match axis {
        IndexExpr::Name(path) => match spanned_index(c, path) {
            Ok(index) => Ok(node1(Tag::HirForBindingIndexNamed, index)),
            Err(error) => Err(error),
        },
        IndexExpr::Finite { cardinality, span } => match nat_expr(c, cardinality) {
            Ok(n) => Ok(node2(Tag::HirForBindingIndexFinite, n, Term::At(span))),
            Err(error) => Err(error),
        },
        IndexExpr::BareNat(n) => Err(expected_index_found_nat(nat_text(n), nat_span(n))),
    }
}

/// The locals of a fold, and the state with them allocated.
pub open spec fn fold_locals(
    names: Seq<Spanned<crate::syntax::names::LocalName>>,
    n: nat,
    st: St,
) -> Low<Seq<Local>>
    decreases n,
{
    if n == 0 || n > names.len() {
        Low::Done(Seq::empty(), st)
    } else {
        match fold_locals(names, (n - 1) as nat, st) {
            Low::Failed(error) => Low::Failed(error),
            Low::Done(before, middle) => match allocated(
                middle,
                names[n - 1].value.atom.text@,
                names[n - 1].span,
            ) {
                Low::Failed(error) => Low::Failed(error),
                Low::Done(local, after) => Low::Done(before.push(local), after),
            },
        }
    }
}

/// What the kind of an expression resolves to.
pub open spec fn lowered_kind(c: Ctx, e: ast::Expr, st: St) -> Low<Term>
    decreases e, 1int,
{
    match e.kind {
        ast::ExprKind::Number(value) => Low::Done(node1(Tag::HirExprNumber, Term::Int(value.bits as int)), st),
        ast::ExprKind::Integer(value) => Low::Done(node1(Tag::HirExprInteger, Term::Int(value as int)), st),
        ast::ExprKind::Bool(value) => Low::Done(node1(Tag::HirExprBool, Term::Flag(value)), st),
        ast::ExprKind::StringLiteral(value) => Low::Done(
            node1(Tag::HirExprStringLiteral, Term::Text(value@)),
            st,
        ),
        ast::ExprKind::UnresolvedRef(UnresolvedRef::Path(path)) => pure(unresolved_ref(c, st, path), st),
        ast::ExprKind::GraphRef(name) => pure(
            match graph_ref(c, scoped_path(name.value), name.span) {
                Ok(target) => Ok(node1(Tag::HirExprGraphRef, pair(target, Term::At(name.span)))),
                Err(error) => Err(error),
            },
            st,
        ),
        ast::ExprKind::BinOp { op, lhs, rhs } => {
            let (l, a) = lowered(c, *lhs, st);
            let (r, b) = lowered(c, *rhs, a);
            Low::Done(node3(Tag::HirExprBinOp, Term::Symbol(Symbol::BinOp(op)), l, r), b)
        },
        ast::ExprKind::UnaryOp { op, operand } => {
            let (t, a) = lowered(c, *operand, st);
            Low::Done(node2(Tag::HirExprUnaryOp, Term::Symbol(Symbol::UnaryOp(op)), t), a)
        },
        ast::ExprKind::FnCall { callee, generic_args, args } => lowered_call(c, callee, generic_args, args, st),
        ast::ExprKind::If { condition, then_branch, else_branch } => {
            let (x, a) = lowered(c, *condition, st);
            let (y, b) = lowered(c, *then_branch, a);
            let (z, d) = lowered(c, *else_branch, b);
            Low::Done(node3(Tag::HirExprIf, x, y, z), d)
        },
        ast::ExprKind::QuantityLiteral { value, unit } => pure(
            match unit_expr(c, unit) {
                Ok(unit) => Ok(node2(Tag::HirExprQuantityLiteral, Term::Int(value.bits as int), unit)),
                Err(error) => Err(error),
            },
            st,
        ),
        ast::ExprKind::Convert { expr, target } => {
            let (t, a) = lowered(c, *expr, st);
            match unit_expr(c, target) {
                Ok(unit) => Low::Done(node2(Tag::HirExprConvert, t, unit), a),
                Err(error) => Low::Failed(error),
            }
        },
        ast::ExprKind::DisplayTimezone { expr, timezone } => {
            let (t, a) = lowered(c, *expr, st);
            match time_zone(c, timezone@, e.span) {
                Ok(zone) => Low::Done(node2(Tag::HirExprDisplayTimezone, t, zone_term(zone)), a),
                Err(error) => Low::Failed(error),
            }
        },
        ast::ExprKind::FieldAccess { expr, field } => match alias_field(c, *expr, field) {
            Some(kind) => Low::Done(kind, st),
            None => {
                let (t, a) = lowered(c, *expr, st);
                Low::Done(node2(Tag::HirExprFieldAccess, t, field.term(Spans::Kept)), a)
            },
        },
        ast::ExprKind::ConstructorCall { callee, generic_args, fields } => lowered_constructor(
            c,
            callee,
            generic_args,
            fields,
            e.span,
            st,
        ),
        ast::ExprKind::MapLiteral { entries } => match lowered_entries(c, entries, entries.len() as nat, e.span, st) {
            Low::Failed(error) => Low::Failed(error),
            Low::Done(items, after) => Low::Done(node1(Tag::HirExprMapLiteral, Term::List(items)), after),
        },
        ast::ExprKind::ForComp { bindings, body } => match for_bindings(c, bindings@, bindings@.len(), st) {
            Low::Failed(error) => Low::Failed(error),
            Low::Done((items, locals), middle) => match lowered_in(c, *body, locals, middle) {
                Low::Failed(error) => Low::Failed(error),
                Low::Done(body, after) => Low::Done(
                    node2(Tag::HirExprForComp, Term::List(items), body),
                    after,
                ),
            },
        },
        ast::ExprKind::IndexAccess { expr, args } => {
            let (t, a) = lowered(c, *expr, st);
            match index_arg(c, *args.first, a) {
                Low::Failed(error) => Low::Failed(error),
                Low::Done(first, b) => match index_args(c, args.rest, args.rest.len() as nat, b) {
                    Low::Failed(error) => Low::Failed(error),
                    Low::Done(rest, after) => Low::Done(
                        node2(Tag::HirExprIndexAccess, t, Term::List(prepend(first, rest))),
                        after,
                    ),
                },
            }
        },
        ast::ExprKind::Scan { source, init, acc_name, val_name, body } => {
            let (x, a) = lowered(c, *source, st);
            let (y, b) = lowered(c, *init, a);
            match fold_locals(seq![acc_name, val_name], 2, b) {
                Low::Failed(error) => Low::Failed(error),
                Low::Done(locals, middle) => match lowered_in(c, *body, locals, middle) {
                    Low::Failed(error) => Low::Failed(error),
                    Low::Done(z, after) => Low::Done(
                        node5(Tag::HirExprScan, x, y, locals[0].to_term(), locals[1].to_term(), z),
                        after,
                    ),
                },
            }
        },
        ast::ExprKind::Unfold { axis, init, prev_state_name, prev_index_name, index_name, body } => match spanned_index(
            c,
            axis,
        ) {
            Err(error) => Low::Failed(error),
            Ok(axis) => {
                let (x, a) = lowered(c, *init, st);
                match fold_locals(seq![prev_state_name, prev_index_name, index_name], 3, a) {
                    Low::Failed(error) => Low::Failed(error),
                    Low::Done(locals, middle) => match lowered_in(c, *body, locals, middle) {
                        Low::Failed(error) => Low::Failed(error),
                        Low::Done(y, after) => Low::Done(
                            node3(
                                Tag::HirExprUnfold,
                                node4(
                                    Tag::HirUnfoldRecurrence,
                                    axis,
                                    locals[0].to_term(),
                                    locals[1].to_term(),
                                    locals[2].to_term(),
                                ),
                                x,
                                y,
                            ),
                            after,
                        ),
                    },
                }
            },
        },
        ast::ExprKind::KeyForm { kind, axis, arg } => match key_axis(c, axis) {
            Err(error) => Low::Failed(error),
            Ok(index) => {
                let (t, after) = lowered(c, *arg, st);
                Low::Done(
                    node4(
                        Tag::HirExprKeyForm,
                        Term::Symbol(Symbol::KeyFormKind(kind)),
                        index,
                        Term::At(index_expr_span(axis)),
                        t,
                    ),
                    after,
                )
            },
        },
        ast::ExprKind::Match { scrutinee, arms } => {
            let (t, a) = lowered(c, *scrutinee, st);
            match lowered_arms(c, arms, arms.len() as nat, a) {
                Low::Failed(error) => Low::Failed(error),
                Low::Done(items, after) => Low::Done(node2(Tag::HirExprMatch, t, Term::List(items)), after),
            }
        },
        ast::ExprKind::InlineDagRef { path, args, output } => dag_call(c, path, args, output, st),
    }
}

} // verus!
