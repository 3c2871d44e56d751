//! What generic arguments and the types in them denote.
//!
//! Names are looked up in the modules first. A dimension that is unknown there
//! may be one of the prelude, and any name may be a generic parameter in scope.

use crate::desugar::desugared_ast as ast;
use crate::exact_rational::ExactRational;
use crate::hir::builtins::time_scale;
use crate::hir::context::{is_param, Ctx};
use crate::hir::error::{
    expected_index_found_nat, generic_arg_count, generic_arg_mismatch, module_resolve, unknown_nat_param,
};
use crate::hir::lowering::{
    generic_arg_span, has_tag, ident_path_span, nat_expr, nat_param, nat_span, nat_text, prelude_dimension,
};
use crate::hir::resolve::{
    generic_params_at, idents_of, names_of, resolution, resolved, target_term, GenericParamSymbol, Namespace,
};
use crate::syntax::ast::{
    AmbiguousGenericArg, DimExpr, DimExprItem, GenericConstraint, Ident, IdentPath, IndexExpr, MulDivOp,
};
use crate::syntax::non_empty::NonEmpty;
use crate::syntax::span::{least, Span};
use crate::syntax::term::{node0, node1, node2, node3, pair, prepend, Spans, Symbol, Syntax, Tag, Term};
use vstd::prelude::*;

verus! {

pub open spec fn param_term(name: Seq<char>) -> Term {
    node1(Tag::HirGenericParamId, Term::Text(name))
}

/// What a path denotes as a dimension.
#[verifier::opaque]
pub open spec fn dim_ref(c: Ctx, path: Seq<Seq<char>>, span: Span) -> Result<Term, Term> {
    match resolved(c.modules, Namespace::Dim, Tag::HirResolvedDimName, c.owner, path) {
        Ok(dim) => Ok(node1(Tag::HirDimRefNamed, dim)),
        Err(error) => if path.len() != 1 || !has_tag(error, Tag::UnknownName) {
            Err(module_resolve(error, span))
        } else {
            match prelude_dimension(c, path[0]) {
                Some(dim) => Ok(node1(Tag::HirDimRefNamed, dim)),
                None => if is_param(c.generics, GenericConstraint::Dim, path[0]) {
                    Ok(node1(Tag::HirDimRefParam, param_term(path[0])))
                } else {
                    Err(module_resolve(error, span))
                },
            }
        },
    }
}

/// The power of a dimension: one, where none is written.
pub open spec fn power_term(power: Option<ExactRational>) -> Term {
    match power {
        Some(power) => power.term(Spans::Kept),
        None => pair(Term::Int(1), Term::Int(1)),
    }
}

/// A factor of a dimension.
pub open spec fn dim_factor(op: MulDivOp, dim: Term, span: Span, power: Option<ExactRational>) -> Term {
    node3(
        Tag::HirDimExprItem,
        Term::Symbol(Symbol::MulDivOp(op)),
        pair(dim, Term::At(span)),
        power_term(power),
    )
}

pub open spec fn dim_items(c: Ctx, items: Seq<DimExprItem>, n: nat) -> Result<Seq<Term>, Term>
    decreases n,
{
    if n == 0 || n > items.len() {
        Ok(Seq::empty())
    } else {
        match dim_items(c, items, (n - 1) as nat) {
            Err(error) => Err(error),
            Ok(before) => {
                let item = items[n - 1];
                let span = ident_path_span(item.term.name);
                match dim_ref(c, idents_of(item.term.name), span) {
                    Err(error) => Err(error),
                    Ok(dim) => Ok(before.push(dim_factor(item.op, dim, span, item.term.power))),
                }
            },
        }
    }
}

pub open spec fn dim_term(items: Seq<Term>, span: Span) -> Term {
    node2(Tag::HirDimExpr, Term::List(items), Term::At(span))
}

/// A dimension that is nothing but a name.
pub open spec fn single_dim(name: Term, span: Span) -> Term {
    dim_term(seq![dim_factor(MulDivOp::Mul, node1(Tag::HirDimRefNamed, name), span, None)], span)
}

/// What a dimension expression denotes.
#[verifier::opaque]
pub open spec fn dim_expr(c: Ctx, d: DimExpr) -> Result<Term, Term> {
    match dim_items(c, d.terms@, d.terms@.len()) {
        Err(error) => Err(error),
        Ok(items) => Ok(dim_term(items, d.span)),
    }
}

/// What a path denotes as an index.
#[verifier::opaque]
pub open spec fn index_ref(c: Ctx, path: Seq<Seq<char>>, span: Span) -> Result<Term, Term> {
    match resolved(c.modules, Namespace::Index, Tag::HirResolvedIndexName, c.owner, path) {
        Ok(index) => Ok(node1(Tag::HirForBindingIndexNamed, pair(index, Term::At(span)))),
        Err(error) => if path.len() == 1 && has_tag(error, Tag::UnknownName) && is_param(
            c.generics,
            GenericConstraint::Index,
            path[0],
        ) {
            Ok(node2(Tag::HirIndexRefParam, param_term(path[0]), Term::At(span)))
        } else {
            Err(module_resolve(error, span))
        },
    }
}

/// What an index expression denotes.
#[verifier::opaque]
pub open spec fn index_axis(c: Ctx, e: IndexExpr) -> Result<Term, Term> {
    match e {
        IndexExpr::Name(path) => index_ref(c, names_of(path.value), path.span),
        IndexExpr::Finite { cardinality, span } => match nat_expr(c, cardinality) {
            Ok(n) => Ok(node2(Tag::HirForBindingIndexFinite, n, Term::At(span))),
            Err(error) => Err(error),
        },
        IndexExpr::BareNat(n) => Err(expected_index_found_nat(nat_text(n), nat_span(n))),
    }
}

pub open spec fn index_axes(c: Ctx, indexes: Seq<IndexExpr>, n: nat) -> Result<Seq<Term>, Term>
    decreases n,
{
    if n == 0 || n > indexes.len() {
        Ok(Seq::empty())
    } else {
        match index_axes(c, indexes, (n - 1) as nat) {
            Err(error) => Err(error),
            Ok(before) => match index_axis(c, indexes[n - 1]) {
                Err(error) => Err(error),
                Ok(index) => Ok(before.push(index)),
            },
        }
    }
}

/// The type of the language itself that a name denotes.
pub open spec fn builtin_type(name: Seq<char>) -> Option<Term> {
    if name == "Dimensionless"@ {
        Some(node0(Tag::HirTypeDimensionless))
    } else if name == "Bool"@ {
        Some(node0(Tag::HirTypeBool))
    } else if name == "Int"@ {
        Some(node0(Tag::HirTypeInt))
    } else if name == "Datetime"@ {
        Some(node0(Tag::HirTypeDatetime))
    } else {
        None
    }
}

/// What a path denotes as a type: a type of the language, a declared type, a
/// generic parameter, or a quantity of a dimension.
#[verifier::opaque]
pub open spec fn named_type(c: Ctx, path: Seq<Seq<char>>, span: Span) -> Result<Term, Term> {
    if path.len() == 1 && builtin_type(path[0]) is Some {
        Ok(builtin_type(path[0])->0)
    } else {
        match resolved(c.modules, Namespace::Type, Tag::HirResolvedStructTypeName, c.owner, path) {
            Ok(t) => Ok(node2(Tag::HirTypeStruct, t, Term::List(Seq::empty()))),
            Err(error) => if !has_tag(error, Tag::UnknownName) {
                Err(module_resolve(error, span))
            } else if path.len() == 1 && is_param(c.generics, GenericConstraint::Type, path[0]) {
                Ok(node1(Tag::HirTypeParam, param_term(path[0])))
            } else {
                match dim_ref(c, path, span) {
                    Ok(dim) => Ok(
                        node1(
                            Tag::HirTypeQuantity,
                            dim_term(seq![dim_factor(MulDivOp::Mul, dim, span, None)], span),
                        ),
                    ),
                    Err(_) => Err(module_resolve(error, span)),
                }
            },
        }
    }
}

/// Whether a dimension expression is nothing but a path.
pub open spec fn is_plain(d: DimExpr) -> bool {
    d.terms@.len() == 1 && d.terms@[0].op == MulDivOp::Mul && d.terms@[0].term.power is None
}

/// What a dimension expression denotes where a type stands.
#[verifier::opaque]
pub open spec fn dim_type(c: Ctx, d: DimExpr) -> Result<Term, Term> {
    if is_plain(d) {
        let name = d.terms@[0].term.name;
        named_type(c, idents_of(name), ident_path_span(name))
    } else {
        match dim_expr(c, d) {
            Ok(dim) => Ok(node1(Tag::HirTypeQuantity, dim)),
            Err(error) => Err(error),
        }
    }
}

// Names and products of names.

pub open spec fn ambiguous_span(arg: AmbiguousGenericArg) -> Span {
    match arg {
        AmbiguousGenericArg::Name(ident) => ident.span,
        AmbiguousGenericArg::Mul(_, span) => span,
    }
}

/// What a product of names denotes as a natural number.
pub open spec fn ambiguous_nat(c: Ctx, arg: AmbiguousGenericArg) -> Result<Term, Term>
    decreases arg,
{
    match arg {
        AmbiguousGenericArg::Name(ident) => if is_param(c.generics, GenericConstraint::Nat, ident.name.text@) {
            Ok(nat_param(ident.name.text@, ident.span))
        } else {
            Err(unknown_nat_param(ident.name.text@, ident.span))
        },
        AmbiguousGenericArg::Mul(operands, span) => match ambiguous_nats(c, operands, operands.len() as nat) {
            Ok(items) => Ok(node2(Tag::HirNatExprMul, Term::List(items), Term::At(span))),
            Err(error) => Err(error),
        },
    }
}

pub open spec fn ambiguous_nats(c: Ctx, v: Vec<AmbiguousGenericArg>, n: nat) -> Result<Seq<Term>, Term>
    decreases v, n,
{
    if n == 0 || n > v.len() {
        Ok(Seq::empty())
    } else {
        match ambiguous_nats(c, v, (n - 1) as nat) {
            Err(error) => Err(error),
            Ok(before) => match ambiguous_nat(c, v[n - 1]) {
                Err(error) => Err(error),
                Ok(item) => Ok(before.push(item)),
            },
        }
    }
}

/// The factors of a product of names as a dimension.
pub open spec fn ambiguous_factors(c: Ctx, arg: AmbiguousGenericArg) -> Result<Seq<Term>, Term>
    decreases arg,
{
    match arg {
        AmbiguousGenericArg::Name(ident) => match dim_ref(c, seq![ident.name.text@], ident.span) {
            Ok(dim) => Ok(seq![dim_factor(MulDivOp::Mul, dim, ident.span, None)]),
            Err(error) => Err(error),
        },
        AmbiguousGenericArg::Mul(operands, _) => all_factors(c, operands, operands.len() as nat),
    }
}

pub open spec fn all_factors(c: Ctx, v: Vec<AmbiguousGenericArg>, n: nat) -> Result<Seq<Term>, Term>
    decreases v, n,
{
    if n == 0 || n > v.len() {
        Ok(Seq::empty())
    } else {
        match all_factors(c, v, (n - 1) as nat) {
            Err(error) => Err(error),
            Ok(before) => match ambiguous_factors(c, v[n - 1]) {
                Err(error) => Err(error),
                Ok(items) => Ok(before + items),
            },
        }
    }
}

/// What a product of names denotes as a dimension.
pub open spec fn ambiguous_dim(c: Ctx, arg: AmbiguousGenericArg) -> Result<Term, Term> {
    match ambiguous_factors(c, arg) {
        Ok(items) => Ok(dim_term(items, ambiguous_span(arg))),
        Err(error) => Err(error),
    }
}

pub open spec fn type_term(kind: Term, span: Span) -> Term {
    node2(Tag::HirTypeExpr, kind, Term::At(span))
}

/// What a product of names denotes for a parameter: the parameter decides what
/// its names are.
#[verifier::opaque]
pub open spec fn ambiguous_arg(c: Ctx, constraint: GenericConstraint, arg: AmbiguousGenericArg) -> Result<Term, Term> {
    match constraint {
        GenericConstraint::Nat => match ambiguous_nat(c, arg) {
            Ok(n) => Ok(node1(Tag::HirGenericArgNat, n)),
            Err(error) => Err(error),
        },
        GenericConstraint::Dim => match ambiguous_dim(c, arg) {
            Ok(dim) => Ok(node1(Tag::HirGenericArgDimension, dim)),
            Err(error) => Err(error),
        },
        GenericConstraint::Index => match arg {
            AmbiguousGenericArg::Name(ident) => match index_ref(c, seq![ident.name.text@], ident.span) {
                Ok(index) => Ok(node1(Tag::HirGenericArgIndex, index)),
                Err(error) => Err(error),
            },
            AmbiguousGenericArg::Mul(_, span) => Err(generic_arg_mismatch(constraint, span)),
        },
        GenericConstraint::Type => match arg {
            AmbiguousGenericArg::Name(ident) => match named_type(c, seq![ident.name.text@], ident.span) {
                Ok(kind) => Ok(node1(Tag::HirGenericArgType, type_term(kind, ident.span))),
                Err(error) => Err(error),
            },
            AmbiguousGenericArg::Mul(_, span) => match ambiguous_dim(c, arg) {
                Ok(dim) => Ok(node1(Tag::HirGenericArgType, type_term(node1(Tag::HirTypeQuantity, dim), span))),
                Err(error) => Err(error),
            },
        },
    }
}

// Types and arguments.

/// The dimension that a type stands for, where it is the type of a quantity.
#[verifier::opaque]
pub open spec fn dim_of_type(c: Ctx, t: ast::TypeExpr) -> Result<Term, Term> {
    match t.kind {
        ast::TypeExprKind::Dimensionless => Ok(dim_term(Seq::empty(), t.span)),
        ast::TypeExprKind::DimExpr(d) => dim_expr(c, d),
        _ => Err(generic_arg_mismatch(GenericConstraint::Dim, t.span)),
    }
}

/// An argument for a generic parameter.
pub open spec fn generic_arg(c: Ctx, constraint: GenericConstraint, arg: ast::GenericArg) -> Result<Term, Term>
    decreases arg,
{
    let mismatch = Err(generic_arg_mismatch(constraint, generic_arg_span(arg)));
    match arg {
        ast::GenericArg::Nat(n) => match constraint {
            GenericConstraint::Nat => match nat_expr(c, n) {
                Ok(n) => Ok(node1(Tag::HirGenericArgNat, n)),
                Err(error) => Err(error),
            },
            GenericConstraint::Index => Err(expected_index_found_nat(nat_text(n), nat_span(n))),
            _ => mismatch,
        },
        ast::GenericArg::Index(e) => match constraint {
            GenericConstraint::Index => match index_axis(c, e) {
                Ok(index) => Ok(node1(Tag::HirGenericArgIndex, index)),
                Err(error) => Err(error),
            },
            _ => mismatch,
        },
        ast::GenericArg::Ambiguous(a) => ambiguous_arg(c, constraint, a),
        ast::GenericArg::Type(t) => match constraint {
            GenericConstraint::Dim => match dim_of_type(c, t) {
                Ok(dim) => Ok(node1(Tag::HirGenericArgDimension, dim)),
                Err(error) => Err(error),
            },
            GenericConstraint::Type => match type_expr(c, t) {
                Ok(t) => Ok(node1(Tag::HirGenericArgType, t)),
                Err(error) => Err(error),
            },
            _ => mismatch,
        },
    }
}

/// Arguments for the parameters from the `shift`th on.
pub open spec fn generic_args_upto(
    c: Ctx,
    constraints: Seq<GenericConstraint>,
    shift: nat,
    v: Vec<ast::GenericArg>,
    n: nat,
) -> Result<Seq<Term>, Term>
    decreases v, n,
{
    if n == 0 || n > v.len() {
        Ok(Seq::empty())
    } else {
        match generic_args_upto(c, constraints, shift, v, (n - 1) as nat) {
            Err(error) => Err(error),
            Ok(before) => match generic_arg(c, constraints[shift + n - 1], v[n - 1]) {
                Err(error) => Err(error),
                Ok(item) => Ok(before.push(item)),
            },
        }
    }
}

/// What a type denotes.
pub open spec fn type_expr(c: Ctx, t: ast::TypeExpr) -> Result<Term, Term>
    decreases t, 0int,
{
    match type_kind(c, t.kind, t.span) {
        Ok(kind) => Ok(type_term(kind, t.span)),
        Err(error) => Err(error),
    }
}

/// The time scale that a type names.
pub open spec fn scale_of_type(t: ast::TypeExpr) -> Option<Term> {
    match t.kind {
        ast::TypeExprKind::DimExpr(d) => if is_plain(d) && idents_of(d.terms@[0].term.name).len() == 1 {
            match time_scale(idents_of(d.terms@[0].term.name)[0]) {
                Some(scale) => Some(node1(Tag::HirTypeTimeScale, Term::Symbol(Symbol::TimeScale(scale)))),
                None => None,
            }
        } else {
            None
        },
        _ => None,
    }
}

/// What a type denotes as an argument of `Datetime`.
pub open spec fn datetime_arg(c: Ctx, t: ast::TypeExpr) -> Result<Term, Term>
    decreases t, 1int,
{
    match scale_of_type(t) {
        Some(kind) => Ok(type_term(kind, t.span)),
        None => type_expr(c, t),
    }
}

pub open spec fn datetime_args(c: Ctx, v: Vec<ast::TypeExpr>, n: nat) -> Result<Seq<Term>, Term>
    decreases v, n,
{
    if n == 0 || n > v.len() {
        Ok(Seq::empty())
    } else {
        match datetime_args(c, v, (n - 1) as nat) {
            Err(error) => Err(error),
            Ok(before) => match datetime_arg(c, v[n - 1]) {
                Err(error) => Err(error),
                Ok(item) => Ok(before.push(item)),
            },
        }
    }
}

pub open spec fn constraints_of(params: Seq<GenericParamSymbol>) -> Seq<GenericConstraint> {
    Seq::new(params.len(), |i: int| params[i].constraint)
}

pub open spec fn all_of(constraint: GenericConstraint, n: nat) -> Seq<GenericConstraint> {
    Seq::new(n, |i: int| constraint)
}

/// What the kind of a type denotes. The argument of `Complex` is a dimension,
/// that of `Key` an index.
pub open spec fn type_kind(c: Ctx, kind: ast::TypeExprKind, span: Span) -> Result<Term, Term>
    decreases kind,
{
    match kind {
        ast::TypeExprKind::Dimensionless => Ok(node0(Tag::HirTypeDimensionless)),
        ast::TypeExprKind::Bool => Ok(node0(Tag::HirTypeBool)),
        ast::TypeExprKind::Int => Ok(node0(Tag::HirTypeInt)),
        ast::TypeExprKind::Datetime => Ok(node0(Tag::HirTypeDatetime)),
        ast::TypeExprKind::DatetimeApplication { type_args } => match datetime_arg(c, *type_args.first) {
            Err(error) => Err(error),
            Ok(first) => match datetime_args(c, type_args.rest, type_args.rest.len() as nat) {
                Err(error) => Err(error),
                Ok(rest) => Ok(node1(Tag::HirTypeDatetimeApplication, Term::List(prepend(first, rest)))),
            },
        },
        ast::TypeExprKind::ComplexApplication { generic_args } => match generic_args_upto(
            c,
            all_of(GenericConstraint::Dim, generic_args.len() as nat),
            0,
            generic_args,
            generic_args.len() as nat,
        ) {
            Err(error) => Err(error),
            Ok(items) => Ok(node1(Tag::HirTypeComplexApplication, Term::List(items))),
        },
        ast::TypeExprKind::KeyApplication { generic_args } => match generic_args_upto(
            c,
            all_of(GenericConstraint::Index, generic_args.len() as nat),
            0,
            generic_args,
            generic_args.len() as nat,
        ) {
            Err(error) => Err(error),
            Ok(items) => Ok(node1(Tag::HirTypeKeyApplication, Term::List(items))),
        },
        ast::TypeExprKind::DimExpr(d) => dim_type(c, d),
        ast::TypeExprKind::Indexed { base, indexes } => match type_expr(c, *base) {
            Err(error) => Err(error),
            Ok(base) => match index_axes(c, indexes@, indexes@.len()) {
                Err(error) => Err(error),
                Ok(items) => Ok(node2(Tag::HirTypeIndexed, base, Term::List(items))),
            },
        },
        ast::TypeExprKind::TypeApplication { name, generic_args } => type_application(c, name, generic_args, span),
    }
}

/// What a type with generic arguments denotes.
pub open spec fn type_application(
    c: Ctx,
    name: IdentPath,
    args: NonEmpty<ast::GenericArg>,
    span: Span,
) -> Result<Term, Term>
    decreases args,
{
    match resolution(c.modules, Namespace::Type, c.owner, idents_of(name)) {
        Err(error) => Err(module_resolve(error, ident_path_span(name))),
        Ok(target) => {
            let params = constraints_of(generic_params_at(c.modules, Namespace::Type, target.owner, target.name));
            if params.len() != args.rest.len() + 1 {
                let got = least(args.rest.len() + 1, usize::MAX as int);
                Err(generic_arg_count(target.name, params.len() as int, got, span))
            } else {
                match generic_arg(c, params[0], *args.first) {
                    Err(error) => Err(error),
                    Ok(first) => match generic_args_upto(c, params, 1, args.rest, args.rest.len() as nat) {
                        Err(error) => Err(error),
                        Ok(rest) => Ok(
                            node2(
                                Tag::HirTypeStruct,
                                target_term(Tag::HirResolvedStructTypeName, target),
                                Term::List(prepend(first, rest)),
                            ),
                        ),
                    },
                }
            }
        },
    }
}

/// The generic arguments of a constructor: none, or one for each parameter of
/// its type.
#[verifier::opaque]
pub open spec fn generic_args(
    c: Ctx,
    name: Seq<char>,
    params: Seq<GenericParamSymbol>,
    args: Vec<ast::GenericArg>,
    span: Span,
) -> Result<Seq<Term>, Term> {
    if args.len() == 0 {
        Ok(Seq::empty())
    } else if args.len() != params.len() {
        Err(generic_arg_count(name, params.len() as int, args.len() as int, span))
    } else {
        generic_args_upto(c, constraints_of(params), 0, args, args.len() as nat)
    }
}

/// A dimension of the prelude can be a generic argument, unless a module knows
/// the name.
pub proof fn law_the_prelude_serves_generic_arguments(c: Ctx, ident: Ident)
    requires
        prelude_dimension(c, ident.name.text@) is Some,
    ensures
        ({
            let path = seq![ident.name.text@];
            let arg = ast::GenericArg::Ambiguous(AmbiguousGenericArg::Name(ident));
            match resolved(c.modules, Namespace::Dim, Tag::HirResolvedDimName, c.owner, path) {
                Ok(dim) => generic_arg(c, GenericConstraint::Dim, arg) == Ok::<Term, Term>(
                    node1(Tag::HirGenericArgDimension, single_dim(dim, ident.span)),
                ),
                Err(error) => has_tag(error, Tag::UnknownName) ==> generic_arg(c, GenericConstraint::Dim, arg) == Ok::<
                    Term,
                    Term,
                >(node1(Tag::HirGenericArgDimension, single_dim(prelude_dimension(c, path[0])->0, ident.span))),
            }
        }),
{
    reveal(dim_ref);
    reveal(ambiguous_arg);
}

} // verus!
