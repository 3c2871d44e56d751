//! Resolving generic arguments and the types in them.

use crate::desugar::desugared_ast as ast;
use crate::exact_rational::ExactRational;
use crate::hir::context::{Ctx, ExprLoweringContext};
use crate::hir::error::ExprLowerError;
use crate::hir::generics::{
    all_factors, all_of, ambiguous_arg, ambiguous_dim, ambiguous_factors, ambiguous_nat, ambiguous_nats,
    ambiguous_span, builtin_type, datetime_arg, datetime_args, dim_expr, dim_items, dim_of_type, dim_ref, dim_type,
    generic_arg, generic_args, generic_args_upto, index_axes, index_axis, index_ref, is_plain, named_type, param_term,
    scale_of_type, type_application, type_expr, type_kind,
};
use crate::hir::lowering::constructor_params;
use crate::hir::names::{copy_atom, lower_result, nat_param_of};
use crate::hir::resolve::{idents_of, lemma_dag_term, names_of, Namespace, Target};
use crate::hir::tree::{
    DimExpr, DimExprItem, DimRef, ForBindingIndex, GenericArg, GenericParamId, IndexRef, NatExpr,
    ResolvedConstructorName, TimeScale, TypeExpr, TypeExprKind,
};
use crate::hir::visit::owner_of;
use crate::syntax::ast::{AmbiguousGenericArg, GenericConstraint, IdentPath, IndexExpr, MulDivOp, NamePath};
use crate::syntax::names::{GenericParamName, NameAtom};
use crate::syntax::non_empty::NonEmpty;
use crate::syntax::span::{Span, Spanned};
use crate::syntax::term::{prepend, seq_terms, Spans, Syntax, Term};
use vstd::prelude::*;
use vstd::string::StringExecFns;

verus! {

/// What resolving a list gave, as terms.
pub open spec fn list_result<T: Syntax>(r: Result<Vec<T>, ExprLowerError>) -> Result<Seq<Term>, Term> {
    match r {
        Ok(items) => Ok(seq_terms(items@, Spans::Kept)),
        Err(error) => Err(error.to_term()),
    }
}

/// What resolving the kind of a type gave, as a term.
pub open spec fn type_result(r: Result<TypeExprKind, ExprLowerError>) -> Result<Term, Term> {
    match r {
        Ok(kind) => Ok(kind.to_term(Spans::Kept)),
        Err(error) => Err(error.to_term()),
    }
}

fn param_of(name: &NameAtom) -> (r: GenericParamId)
    ensures
        r.term(Spans::Kept) == param_term(name.text@),
{
    GenericParamId { name: GenericParamName { atom: copy_atom(name) } }
}

fn factor(op: MulDivOp, dim: DimRef, span: Span, power: Option<ExactRational>) -> (r: DimExprItem)
    ensures
        r.term(Spans::Kept) == crate::hir::generics::dim_factor(op, dim.term(Spans::Kept), span, power),
{
    let power = match power {
        Some(power) => power,
        None => ExactRational::from_integer(1),
    };
    DimExprItem { op, dimension: Spanned { value: dim, span }, power }
}

/// A list that starts with an item.
fn with_first<T: Syntax>(first: T, rest: Vec<T>) -> (r: Vec<T>)
    ensures
        seq_terms(r@, Spans::Kept) == prepend(first.term(Spans::Kept), seq_terms(rest@, Spans::Kept)),
{
    let ghost all = rest@;
    let ghost start = first.term(Spans::Kept);
    let mut items = rest;
    items.insert(0, first);
    assert(seq_terms(items@, Spans::Kept) =~= prepend(start, seq_terms(all, Spans::Kept)));
    items
}

proof fn lemma_arg_terms(v: Vec<GenericArg>)
    ensures
        GenericArg::terms(v, Spans::Kept) == seq_terms(v@, Spans::Kept),
{
    assert(GenericArg::terms(v, Spans::Kept) =~= seq_terms(v@, Spans::Kept));
}

proof fn lemma_type_terms(v: Vec<TypeExpr>)
    ensures
        TypeExpr::terms(v, Spans::Kept) == seq_terms(v@, Spans::Kept),
{
    assert(TypeExpr::terms(v, Spans::Kept) =~= seq_terms(v@, Spans::Kept));
}

fn builtin_type_of(name: &NameAtom) -> (r: Option<TypeExprKind>)
    ensures
        match r {
            Some(kind) => builtin_type(name.text@) == Some(kind.to_term(Spans::Kept)),
            None => builtin_type(name.text@) is None,
        },
{
    if name.text == "Dimensionless".to_owned() {
        Some(TypeExprKind::Dimensionless)
    } else if name.text == "Bool".to_owned() {
        Some(TypeExprKind::Bool)
    } else if name.text == "Int".to_owned() {
        Some(TypeExprKind::Int)
    } else if name.text == "Datetime".to_owned() {
        Some(TypeExprKind::Datetime)
    } else {
        None
    }
}

impl AmbiguousGenericArg {
    pub fn span(&self) -> (r: Span)
        ensures
            r == ambiguous_span(*self),
    {
        match self {
            AmbiguousGenericArg::Name(ident) => ident.span,
            AmbiguousGenericArg::Mul(_, span) => *span,
        }
    }
}

/// The name that a dimension expression is, where it is nothing but a path.
fn plain_name(d: &crate::syntax::ast::DimExpr) -> (r: Option<&IdentPath>)
    ensures
        match r {
            Some(name) => is_plain(*d) && *name == d.terms@[0].term.name,
            None => !is_plain(*d),
        },
{
    if d.terms.len() == 1 && d.terms[0].op == MulDivOp::Mul && d.terms[0].term.power.is_none() {
        Some(&d.terms[0].term.name)
    } else {
        None
    }
}

/// The time scale that a type names.
fn time_scale_of(t: &ast::TypeExpr) -> (r: Option<TypeExprKind>)
    ensures
        match r {
            Some(kind) => scale_of_type(*t) == Some(kind.to_term(Spans::Kept)),
            None => scale_of_type(*t) is None,
        },
{
    match &t.kind {
        ast::TypeExprKind::DimExpr(d) => match plain_name(d) {
            Some(name) => {
                if name.segments.rest.len() > 0 {
                    return None;
                }
                assert(idents_of(*name)[0] == name.segments.first.name.text@);
                match TimeScale::parse(&name.segments.first.name.text) {
                    Some(scale) => Some(TypeExprKind::TimeScale(scale)),
                    None => None,
                }
            },
            None => None,
        },
        _ => None,
    }
}

fn repeated(constraint: GenericConstraint, n: usize) -> (r: Vec<GenericConstraint>)
    ensures
        r@ == all_of(constraint, n as nat),
{
    let mut out: Vec<GenericConstraint> = Vec::new();
    for i in 0..n
        invariant
            out@.len() == i,
            forall|j: int| 0 <= j < i ==> out@[j] == constraint,
    {
        out.push(constraint);
    }
    assert(out@ =~= all_of(constraint, n as nat));
    out
}

impl<'a> ExprLoweringContext<'a> {
    /// What a path denotes as a dimension.
    fn lower_dim_ref(&self, path: &NamePath, span: Span) -> (r: Result<DimRef, ExprLowerError>)
        ensures
            lower_result(r) == dim_ref(self@, names_of(*path), span),
    {
        reveal(dim_ref);
        let error = match self.resolver.resolve_dimension_path(self.owner, path) {
            Ok(dimension) => return Ok(DimRef::Named(dimension)),
            Err(error) => error,
        };
        assert(path.segments.first.text@ == names_of(*path)[0]);
        if path.segments.rest.len() > 0 || !error.is_unknown_name() {
            return Err(ExprLowerError::module_resolve(error, span));
        }
        match self.prelude {
            Some(prelude) => match prelude.resolve_dimension_path(path) {
                Some(dimension) => {
                    proof {
                        lemma_dag_term(dimension.owner);
                    }
                    return Ok(DimRef::Named(dimension));
                },
                None => {},
            },
            None => {},
        }
        if self.generic_scope.is_param(GenericConstraint::Dim, &path.segments.first) {
            Ok(DimRef::Param(param_of(&path.segments.first)))
        } else {
            Err(ExprLowerError::module_resolve(error, span))
        }
    }

    /// What a dimension expression denotes.
    fn lower_dim_expr(&self, d: &crate::syntax::ast::DimExpr) -> (r: Result<DimExpr, ExprLowerError>)
        ensures
            lower_result(r) == dim_expr(self@, *d),
    {
        reveal(dim_expr);
        let mut items: Vec<DimExprItem> = Vec::new();
        assert(seq_terms(items@, Spans::Kept) =~= Seq::empty());
        for i in 0..d.terms.len()
            invariant
                dim_items(self@, d.terms@, i as nat) == Ok::<Seq<Term>, Term>(seq_terms(items@, Spans::Kept)),
        {
            let item = &d.terms[i];
            let span = item.term.name.span();
            match self.lower_dim_ref(&item.term.name.to_name_path(), span) {
                Ok(dim) => {
                    let ghost before = seq_terms(items@, Spans::Kept);
                    let item = factor(item.op, dim, span, item.term.power);
                    items.push(item);
                    assert(seq_terms(items@, Spans::Kept) =~= before.push(item.term(Spans::Kept)));
                },
                Err(error) => {
                    proof {
                        reveal(dim_expr);
                        lemma_dim_items_fail(self@, d.terms@, (i + 1) as nat);
                    }
                    return Err(error);
                },
            }
        }
        Ok(DimExpr { items, span: d.span })
    }

    /// What a path denotes as an index.
    fn lower_index_ref(&self, path: &NamePath, span: Span) -> (r: Result<IndexRef, ExprLowerError>)
        ensures
            lower_result(r) == index_ref(self@, names_of(*path), span),
    {
        reveal(index_ref);
        assert(path.segments.first.text@ == names_of(*path)[0]);
        match self.resolver.resolve_index_path(self.owner, path) {
            Ok(index) => Ok(IndexRef::Axis(ForBindingIndex::Named(Spanned { value: index, span }))),
            Err(error) => if path.segments.rest.len() == 0 && error.is_unknown_name() && self.generic_scope.is_param(
                GenericConstraint::Index,
                &path.segments.first,
            ) {
                Ok(IndexRef::Param(param_of(&path.segments.first), span))
            } else {
                Err(ExprLowerError::module_resolve(error, span))
            },
        }
    }

    /// What an index expression denotes.
    fn lower_index_axis(&self, e: &IndexExpr) -> (r: Result<IndexRef, ExprLowerError>)
        ensures
            lower_result(r) == index_axis(self@, *e),
    {
        reveal(index_axis);
        match e {
            IndexExpr::Name(path) => self.lower_index_ref(&path.value, path.span),
            IndexExpr::Finite { cardinality, span } => match self.lower_nat_expr(cardinality) {
                Ok(n) => Ok(IndexRef::Axis(ForBindingIndex::Finite { cardinality: n, span: *span })),
                Err(error) => Err(error),
            },
            IndexExpr::BareNat(n) => Err(ExprLowerError::expected_index_found_nat(n.display(), n.span())),
        }
    }

    fn lower_index_axes(&self, indexes: &NonEmpty<IndexExpr>) -> (r: Result<Vec<IndexRef>, ExprLowerError>)
        ensures
            list_result(r) == index_axes(self@, indexes@, indexes@.len()),
    {
        let mut items: Vec<IndexRef> = Vec::new();
        let ghost all = indexes@;
        assert(seq_terms(items@, Spans::Kept) =~= Seq::empty());
        reveal_with_fuel(index_axes, 2);
        match self.lower_index_axis(&indexes.first) {
            Ok(item) => {
                items.push(item);
                assert(seq_terms(items@, Spans::Kept) =~= Seq::empty().push(item.term(Spans::Kept)));
            },
            Err(error) => {
                proof {
                    lemma_index_axes_fail(self@, all, 1);
                }
                return Err(error);
            },
        }
        for i in 0..indexes.rest.len()
            invariant
                all == indexes@,
                index_axes(self@, all, (i + 1) as nat) == Ok::<Seq<Term>, Term>(seq_terms(items@, Spans::Kept)),
        {
            assert(all[i + 1] == indexes.rest[i as int]);
            match self.lower_index_axis(&indexes.rest[i]) {
                Ok(item) => {
                    let ghost before = seq_terms(items@, Spans::Kept);
                    items.push(item);
                    assert(seq_terms(items@, Spans::Kept) =~= before.push(item.term(Spans::Kept)));
                },
                Err(error) => {
                    proof {
                        lemma_index_axes_fail(self@, all, (i + 2) as nat);
                    }
                    return Err(error);
                },
            }
        }
        Ok(items)
    }

    /// What a path denotes as a type.
    fn lower_named_type(&self, path: &NamePath, span: Span) -> (r: Result<TypeExprKind, ExprLowerError>)
        ensures
            type_result(r) == named_type(self@, names_of(*path), span),
    {
        reveal(named_type);
        assert(path.segments.first.text@ == names_of(*path)[0]);
        let single = path.segments.rest.len() == 0;
        if single {
            match builtin_type_of(&path.segments.first) {
                Some(kind) => return Ok(kind),
                None => {},
            }
        }
        let error = match self.resolver.resolve_struct_type_path(self.owner, path) {
            Ok(name) => {
                let generic_args: Vec<GenericArg> = Vec::new();
                assert(GenericArg::terms(generic_args, Spans::Kept) =~= Seq::empty());
                return Ok(TypeExprKind::Struct { name, generic_args });
            },
            Err(error) => error,
        };
        if !error.is_unknown_name() {
            return Err(ExprLowerError::module_resolve(error, span));
        }
        if single && self.generic_scope.is_param(GenericConstraint::Type, &path.segments.first) {
            return Ok(TypeExprKind::Param(param_of(&path.segments.first)));
        }
        match self.lower_dim_ref(path, span) {
            Ok(dim) => {
                let item = factor(MulDivOp::Mul, dim, span, None);
                let mut items: Vec<DimExprItem> = Vec::new();
                items.push(item);
                assert(seq_terms(items@, Spans::Kept) =~= seq![item.term(Spans::Kept)]);
                Ok(TypeExprKind::Quantity(DimExpr { items, span }))
            },
            Err(_) => Err(ExprLowerError::module_resolve(error, span)),
        }
    }

    /// What a dimension expression denotes where a type stands.
    fn lower_dim_type(&self, d: &crate::syntax::ast::DimExpr) -> (r: Result<TypeExprKind, ExprLowerError>)
        ensures
            type_result(r) == dim_type(self@, *d),
    {
        reveal(dim_type);
        match plain_name(d) {
            Some(name) => self.lower_named_type(&name.to_name_path(), name.span()),
            None => match self.lower_dim_expr(d) {
                Ok(dim) => Ok(TypeExprKind::Quantity(dim)),
                Err(error) => Err(error),
            },
        }
    }

    /// What a product of names denotes as a natural number.
    fn lower_ambiguous_nat(&self, arg: &AmbiguousGenericArg) -> (r: Result<NatExpr, ExprLowerError>)
        ensures
            lower_result(r) == ambiguous_nat(self@, *arg),
        decreases arg,
    {
        match arg {
            AmbiguousGenericArg::Name(ident) => if self.generic_scope.is_param(GenericConstraint::Nat, &ident.name) {
                Ok(nat_param_of(ident))
            } else {
                Err(ExprLowerError::unknown_nat_param(ident.name.text.clone(), ident.span))
            },
            AmbiguousGenericArg::Mul(operands, span) => match self.lower_ambiguous_nats(operands) {
                Ok(items) => Ok(NatExpr::Mul(items, *span)),
                Err(error) => Err(error),
            },
        }
    }

    fn lower_ambiguous_nats(&self, v: &Vec<AmbiguousGenericArg>) -> (r: Result<Vec<NatExpr>, ExprLowerError>)
        ensures
            match r {
                Ok(items) => ambiguous_nats(self@, *v, v.len() as nat) == Ok::<Seq<Term>, Term>(
                    NatExpr::terms(items, Spans::Kept),
                ),
                Err(error) => ambiguous_nats(self@, *v, v.len() as nat) == Err::<Seq<Term>, Term>(error.to_term()),
            },
        decreases v,
    {
        let mut items: Vec<NatExpr> = Vec::new();
        assert(NatExpr::terms(items, Spans::Kept) =~= Seq::empty());
        for i in 0..v.len()
            invariant
                ambiguous_nats(self@, *v, i as nat) == Ok::<Seq<Term>, Term>(NatExpr::terms(items, Spans::Kept)),
        {
            match self.lower_ambiguous_nat(&v[i]) {
                Ok(item) => {
                    let ghost before = items;
                    items.push(item);
                    assert(NatExpr::terms(items, Spans::Kept) =~= NatExpr::terms(before, Spans::Kept).push(
                        item.to_term(Spans::Kept),
                    ));
                },
                Err(error) => {
                    proof {
                        lemma_ambiguous_nats_fail(self@, *v, (i + 1) as nat);
                    }
                    return Err(error);
                },
            }
        }
        Ok(items)
    }

    /// The factors of a product of names as a dimension.
    fn lower_factors(&self, arg: &AmbiguousGenericArg) -> (r: Result<Vec<DimExprItem>, ExprLowerError>)
        ensures
            list_result(r) == ambiguous_factors(self@, *arg),
        decreases arg,
    {
        match arg {
            AmbiguousGenericArg::Name(ident) => {
                let path = NamePath::local(copy_atom(&ident.name));
                assert(names_of(path) =~= seq![ident.name.text@]);
                match self.lower_dim_ref(&path, ident.span) {
                    Ok(dim) => {
                        let item = factor(MulDivOp::Mul, dim, ident.span, None);
                        let mut items: Vec<DimExprItem> = Vec::new();
                        items.push(item);
                        assert(seq_terms(items@, Spans::Kept) =~= seq![item.term(Spans::Kept)]);
                        Ok(items)
                    },
                    Err(error) => Err(error),
                }
            },
            AmbiguousGenericArg::Mul(operands, _) => self.lower_all_factors(operands),
        }
    }

    fn lower_all_factors(&self, v: &Vec<AmbiguousGenericArg>) -> (r: Result<Vec<DimExprItem>, ExprLowerError>)
        ensures
            list_result(r) == all_factors(self@, *v, v.len() as nat),
        decreases v,
    {
        let mut items: Vec<DimExprItem> = Vec::new();
        assert(seq_terms(items@, Spans::Kept) =~= Seq::empty());
        for i in 0..v.len()
            invariant
                all_factors(self@, *v, i as nat) == Ok::<Seq<Term>, Term>(seq_terms(items@, Spans::Kept)),
        {
            match self.lower_factors(&v[i]) {
                Ok(more) => {
                    let ghost before = items@;
                    let ghost added = more@;
                    let mut more = more;
                    items.append(&mut more);
                    assert(items@ =~= before + added);
                    assert(seq_terms(items@, Spans::Kept) =~= seq_terms(before, Spans::Kept) + seq_terms(
                        added,
                        Spans::Kept,
                    ));
                },
                Err(error) => {
                    proof {
                        lemma_all_factors_fail(self@, *v, (i + 1) as nat);
                    }
                    return Err(error);
                },
            }
        }
        Ok(items)
    }

    /// What a product of names denotes as a dimension.
    fn lower_ambiguous_dim(&self, arg: &AmbiguousGenericArg) -> (r: Result<DimExpr, ExprLowerError>)
        ensures
            lower_result(r) == ambiguous_dim(self@, *arg),
    {
        match self.lower_factors(arg) {
            Ok(items) => Ok(DimExpr { items, span: arg.span() }),
            Err(error) => Err(error),
        }
    }

    fn lower_ambiguous_arg(&self, constraint: GenericConstraint, arg: &AmbiguousGenericArg) -> (r: Result<
        GenericArg,
        ExprLowerError,
    >)
        ensures
            lower_result(r) == ambiguous_arg(self@, constraint, *arg),
    {
        reveal(ambiguous_arg);
        match constraint {
            GenericConstraint::Nat => match self.lower_ambiguous_nat(arg) {
                Ok(n) => Ok(GenericArg::Nat(n)),
                Err(error) => Err(error),
            },
            GenericConstraint::Dim => match self.lower_ambiguous_dim(arg) {
                Ok(dim) => Ok(GenericArg::Dimension(dim)),
                Err(error) => Err(error),
            },
            GenericConstraint::Index => match arg {
                AmbiguousGenericArg::Name(ident) => {
                    let path = NamePath::local(copy_atom(&ident.name));
                    assert(names_of(path) =~= seq![ident.name.text@]);
                    match self.lower_index_ref(&path, ident.span) {
                        Ok(index) => Ok(GenericArg::Index(index)),
                        Err(error) => Err(error),
                    }
                },
                AmbiguousGenericArg::Mul(_, span) => Err(ExprLowerError::generic_arg_mismatch(constraint, *span)),
            },
            GenericConstraint::Type => match arg {
                AmbiguousGenericArg::Name(ident) => {
                    let path = NamePath::local(copy_atom(&ident.name));
                    assert(names_of(path) =~= seq![ident.name.text@]);
                    match self.lower_named_type(&path, ident.span) {
                        Ok(kind) => Ok(GenericArg::Type(TypeExpr { kind, span: ident.span })),
                        Err(error) => Err(error),
                    }
                },
                AmbiguousGenericArg::Mul(_, span) => match self.lower_ambiguous_dim(arg) {
                    Ok(dim) => Ok(GenericArg::Type(TypeExpr { kind: TypeExprKind::Quantity(dim), span: *span })),
                    Err(error) => Err(error),
                },
            },
        }
    }

    /// The dimension that a type stands for.
    fn lower_dim_of_type(&self, t: &ast::TypeExpr) -> (r: Result<DimExpr, ExprLowerError>)
        ensures
            lower_result(r) == dim_of_type(self@, *t),
    {
        reveal(dim_of_type);
        match &t.kind {
            ast::TypeExprKind::Dimensionless => {
                let items: Vec<DimExprItem> = Vec::new();
                assert(seq_terms(items@, Spans::Kept) =~= Seq::empty());
                Ok(DimExpr { items, span: t.span })
            },
            ast::TypeExprKind::DimExpr(d) => self.lower_dim_expr(d),
            _ => Err(ExprLowerError::generic_arg_mismatch(GenericConstraint::Dim, t.span)),
        }
    }

    /// An argument for a generic parameter.
    fn lower_generic_arg(&self, constraint: GenericConstraint, arg: &ast::GenericArg) -> (r: Result<
        GenericArg,
        ExprLowerError,
    >)
        ensures
            lower_result(r) == generic_arg(self@, constraint, *arg),
        decreases arg,
    {
        match arg {
            ast::GenericArg::Nat(n) => match constraint {
                GenericConstraint::Nat => match self.lower_nat_expr(n) {
                    Ok(n) => Ok(GenericArg::Nat(n)),
                    Err(error) => Err(error),
                },
                GenericConstraint::Index => Err(ExprLowerError::expected_index_found_nat(n.display(), n.span())),
                _ => Err(ExprLowerError::generic_arg_mismatch(constraint, arg.span())),
            },
            ast::GenericArg::Index(e) => match constraint {
                GenericConstraint::Index => match self.lower_index_axis(e) {
                    Ok(index) => Ok(GenericArg::Index(index)),
                    Err(error) => Err(error),
                },
                _ => Err(ExprLowerError::generic_arg_mismatch(constraint, arg.span())),
            },
            ast::GenericArg::Ambiguous(a) => self.lower_ambiguous_arg(constraint, a),
            ast::GenericArg::Type(t) => match constraint {
                GenericConstraint::Dim => match self.lower_dim_of_type(t) {
                    Ok(dim) => Ok(GenericArg::Dimension(dim)),
                    Err(error) => Err(error),
                },
                GenericConstraint::Type => match self.lower_type_expr(t) {
                    Ok(t) => Ok(GenericArg::Type(t)),
                    Err(error) => Err(error),
                },
                _ => Err(ExprLowerError::generic_arg_mismatch(constraint, arg.span())),
            },
        }
    }

    fn lower_args_from(&self, constraints: &Vec<GenericConstraint>, shift: usize, v: &Vec<ast::GenericArg>) -> (r:
        Result<Vec<GenericArg>, ExprLowerError>)
        requires
            shift + v.len() <= constraints@.len(),
        ensures
            list_result(r) == generic_args_upto(self@, constraints@, shift as nat, *v, v.len() as nat),
        decreases v,
    {
        let count = constraints.len();
        let mut items: Vec<GenericArg> = Vec::new();
        assert(seq_terms(items@, Spans::Kept) =~= Seq::empty());
        for i in 0..v.len()
            invariant
                shift + v.len() <= count == constraints@.len(),
                generic_args_upto(self@, constraints@, shift as nat, *v, i as nat) == Ok::<Seq<Term>, Term>(
                    seq_terms(items@, Spans::Kept),
                ),
        {
            match self.lower_generic_arg(constraints[shift + i], &v[i]) {
                Ok(item) => {
                    let ghost before = seq_terms(items@, Spans::Kept);
                    items.push(item);
                    assert(seq_terms(items@, Spans::Kept) =~= before.push(item.term(Spans::Kept)));
                },
                Err(error) => {
                    proof {
                        lemma_generic_args_fail(self@, constraints@, shift as nat, *v, (i + 1) as nat);
                    }
                    return Err(error);
                },
            }
        }
        Ok(items)
    }

    /// What a type denotes.
    fn lower_type_expr(&self, t: &ast::TypeExpr) -> (r: Result<TypeExpr, ExprLowerError>)
        ensures
            lower_result(r) == type_expr(self@, *t),
        decreases t, 0int,
    {
        match self.lower_type_kind(&t.kind, t.span) {
            Ok(kind) => Ok(TypeExpr { kind, span: t.span }),
            Err(error) => Err(error),
        }
    }

    fn lower_datetime_arg(&self, t: &ast::TypeExpr) -> (r: Result<TypeExpr, ExprLowerError>)
        ensures
            lower_result(r) == datetime_arg(self@, *t),
        decreases t, 1int,
    {
        match time_scale_of(t) {
            Some(kind) => Ok(TypeExpr { kind, span: t.span }),
            None => self.lower_type_expr(t),
        }
    }

    fn lower_datetime_args(&self, v: &Vec<ast::TypeExpr>) -> (r: Result<Vec<TypeExpr>, ExprLowerError>)
        ensures
            list_result(r) == datetime_args(self@, *v, v.len() as nat),
        decreases v,
    {
        let mut items: Vec<TypeExpr> = Vec::new();
        assert(seq_terms(items@, Spans::Kept) =~= Seq::empty());
        for i in 0..v.len()
            invariant
                datetime_args(self@, *v, i as nat) == Ok::<Seq<Term>, Term>(seq_terms(items@, Spans::Kept)),
        {
            match self.lower_datetime_arg(&v[i]) {
                Ok(item) => {
                    let ghost before = seq_terms(items@, Spans::Kept);
                    items.push(item);
                    assert(seq_terms(items@, Spans::Kept) =~= before.push(item.term(Spans::Kept)));
                },
                Err(error) => {
                    proof {
                        lemma_datetime_args_fail(self@, *v, (i + 1) as nat);
                    }
                    return Err(error);
                },
            }
        }
        Ok(items)
    }

    /// A type with generic arguments.
    fn lower_type_application(
        &self,
        name: &IdentPath,
        generic_args: &NonEmpty<ast::GenericArg>,
        span: Span,
    ) -> (r: Result<TypeExprKind, ExprLowerError>)
        ensures
            type_result(r) == type_application(self@, *name, *generic_args, span),
        decreases generic_args,
    {
        let t = match self.resolver.resolve_struct_type_ident_path(self.owner, name) {
            Ok(t) => t,
            Err(error) => return Err(ExprLowerError::module_resolve(error, name.span())),
        };
        let params = self.resolver.generic_params(Namespace::Type, &t.owner, &t.name.atom);
        if params.len() == 0 || params.len() - 1 != generic_args.rest.len() {
            let got = generic_args.rest.len().saturating_add(1);
            return Err(ExprLowerError::generic_arg_count(t.name.atom.text.clone(), params.len(), got, span));
        }
        let first = match self.lower_generic_arg(params[0], &generic_args.first) {
            Ok(first) => first,
            Err(error) => return Err(error),
        };
        match self.lower_args_from(&params, 1, &generic_args.rest) {
            Ok(rest) => {
                let all = with_first(first, rest);
                proof {
                    lemma_arg_terms(all);
                    lemma_dag_term(t.owner);
                }
                Ok(TypeExprKind::Struct { name: t, generic_args: all })
            },
            Err(error) => Err(error),
        }
    }

    fn lower_type_kind(&self, kind: &ast::TypeExprKind, span: Span) -> (r: Result<TypeExprKind, ExprLowerError>)
        ensures
            type_result(r) == type_kind(self@, *kind, span),
        decreases kind,
    {
        match kind {
            ast::TypeExprKind::Dimensionless => Ok(TypeExprKind::Dimensionless),
            ast::TypeExprKind::Bool => Ok(TypeExprKind::Bool),
            ast::TypeExprKind::Int => Ok(TypeExprKind::Int),
            ast::TypeExprKind::Datetime => Ok(TypeExprKind::Datetime),
            ast::TypeExprKind::DatetimeApplication { type_args } => {
                let first = match self.lower_datetime_arg(&type_args.first) {
                    Ok(first) => first,
                    Err(error) => return Err(error),
                };
                match self.lower_datetime_args(&type_args.rest) {
                    Ok(rest) => {
                        let all = with_first(first, rest);
                        proof {
                            lemma_type_terms(all);
                        }
                        Ok(TypeExprKind::DatetimeApplication { type_args: all })
                    },
                    Err(error) => Err(error),
                }
            },
            ast::TypeExprKind::ComplexApplication { generic_args } => {
                let constraints = repeated(GenericConstraint::Dim, generic_args.len());
                match self.lower_args_from(&constraints, 0, generic_args) {
                    Ok(items) => {
                        proof {
                            lemma_arg_terms(items);
                        }
                        Ok(TypeExprKind::ComplexApplication { generic_args: items })
                    },
                    Err(error) => Err(error),
                }
            },
            ast::TypeExprKind::KeyApplication { generic_args } => {
                let constraints = repeated(GenericConstraint::Index, generic_args.len());
                match self.lower_args_from(&constraints, 0, generic_args) {
                    Ok(items) => {
                        proof {
                            lemma_arg_terms(items);
                        }
                        Ok(TypeExprKind::KeyApplication { generic_args: items })
                    },
                    Err(error) => Err(error),
                }
            },
            ast::TypeExprKind::DimExpr(d) => self.lower_dim_type(d),
            ast::TypeExprKind::Indexed { base, indexes } => {
                let base = match self.lower_type_expr(base) {
                    Ok(base) => base,
                    Err(error) => return Err(error),
                };
                match self.lower_index_axes(indexes) {
                    Ok(indexes) => Ok(TypeExprKind::Indexed { base: Box::new(base), indexes }),
                    Err(error) => Err(error),
                }
            },
            ast::TypeExprKind::TypeApplication { name, generic_args } => self.lower_type_application(
                name,
                generic_args,
                span,
            ),
        }
    }

    /// The generic arguments of a constructor.
    pub(crate) fn lower_generic_args(
        &self,
        constructor: &ResolvedConstructorName,
        args: &Vec<ast::GenericArg>,
        span: Span,
    ) -> (r: Result<Vec<GenericArg>, ExprLowerError>)
        ensures
            list_result(r) == generic_args(
                self@,
                constructor.name.atom.text@,
                constructor_params(
                    self@,
                    Target { owner: owner_of(constructor.owner), name: constructor.name.atom.text@ },
                ),
                *args,
                span,
            ),
    {
        reveal(generic_args);
        let params = self.resolver.generic_params(Namespace::Constructor, &constructor.owner, &constructor.name.atom);
        if args.len() == 0 {
            let items: Vec<GenericArg> = Vec::new();
            assert(seq_terms(items@, Spans::Kept) =~= Seq::empty());
            return Ok(items);
        }
        if args.len() != params.len() {
            return Err(
                ExprLowerError::generic_arg_count(
                    constructor.name.atom.text.clone(),
                    params.len(),
                    args.len(),
                    span,
                ),
            );
        }
        self.lower_args_from(&params, 0, args)
    }
}

proof fn lemma_dim_items_fail(c: Ctx, items: Seq<crate::syntax::ast::DimExprItem>, n: nat)
    requires
        dim_items(c, items, n) is Err,
        n <= items.len(),
    ensures
        dim_items(c, items, items.len()) == dim_items(c, items, n),
    decreases items.len() - n,
{
    if n < items.len() {
        lemma_dim_items_fail(c, items, n + 1);
    }
}

proof fn lemma_index_axes_fail(c: Ctx, indexes: Seq<IndexExpr>, n: nat)
    requires
        index_axes(c, indexes, n) is Err,
        n <= indexes.len(),
    ensures
        index_axes(c, indexes, indexes.len()) == index_axes(c, indexes, n),
    decreases indexes.len() - n,
{
    if n < indexes.len() {
        lemma_index_axes_fail(c, indexes, n + 1);
    }
}

proof fn lemma_ambiguous_nats_fail(c: Ctx, v: Vec<AmbiguousGenericArg>, n: nat)
    requires
        ambiguous_nats(c, v, n) is Err,
        n <= v.len(),
    ensures
        ambiguous_nats(c, v, v.len() as nat) == ambiguous_nats(c, v, n),
    decreases v.len() - n,
{
    if n < v.len() {
        lemma_ambiguous_nats_fail(c, v, n + 1);
    }
}

proof fn lemma_all_factors_fail(c: Ctx, v: Vec<AmbiguousGenericArg>, n: nat)
    requires
        all_factors(c, v, n) is Err,
        n <= v.len(),
    ensures
        all_factors(c, v, v.len() as nat) == all_factors(c, v, n),
    decreases v.len() - n,
{
    if n < v.len() {
        lemma_all_factors_fail(c, v, n + 1);
    }
}

proof fn lemma_datetime_args_fail(c: Ctx, v: Vec<ast::TypeExpr>, n: nat)
    requires
        datetime_args(c, v, n) is Err,
        n <= v.len(),
    ensures
        datetime_args(c, v, v.len() as nat) == datetime_args(c, v, n),
    decreases v.len() - n,
{
    if n < v.len() {
        lemma_datetime_args_fail(c, v, n + 1);
    }
}

proof fn lemma_generic_args_fail(c: Ctx, constraints: Seq<GenericConstraint>, shift: nat, v: Vec<ast::GenericArg>, n: nat)
    requires
        generic_args_upto(c, constraints, shift, v, n) is Err,
        n <= v.len(),
    ensures
        generic_args_upto(c, constraints, shift, v, v.len() as nat) == generic_args_upto(c, constraints, shift, v, n),
    decreases v.len() - n,
{
    if n < v.len() {
        lemma_generic_args_fail(c, constraints, shift, v, n + 1);
    }
}

} // verus!
