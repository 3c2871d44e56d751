//! Resolving the names, units, numbers and functions in an expression.

use crate::desugar::desugared_ast as ast;
use crate::exact_rational::ExactRational;
use crate::hir::builtins::builtin_arity;
use crate::hir::context::{is_nat_param, Ctx, ExprLoweringContext};
use crate::hir::datetime::{DatetimeLiteralExpectation, ZonedResult};
use crate::hir::error::ExprLowerError;
use crate::hir::lowering::{
    alias_field, arity_error, child_decl, const_ref, declared_const, dotted_ref, effective_power, epoch_ref,
    first_arg_span, for_index, function_application, function_ref, generic_arg_span, graph_ref, has_tag,
    ident_path_span, index_expr_span, key_axis, known_const, lists_function, module_ref, nat_expr, nat_exprs,
    nat_param, nat_span, nat_text, nats_text, qualifier_span, scoped_path, scoped_term, segment_names, spanned_index,
    time_zone, type_system_ref, unit_expr, unit_item, unit_items, unit_path, unit_target, variant_parts, variant_ref,
    written_index_span, zoned_literal, Fun,
};
use crate::hir::resolve::{
    dotted_path, idents_of, lemma_dag_term, lemma_path_names, names_of, resolved, target_term, DeclSymbolKind,
    ModuleResolveError, Target,
};
use crate::hir::tree::{
    BuiltinConst, BuiltinFnName, CivilDateTimeLiteral, ConstRef, ExprKind, ExternFnRef, ForBindingIndex, FunctionRef,
    GenericArg, GenericParamId, IanaTimeZoneId, IndexVariantRef, NatExpr, ResolvedDeclName, ResolvedIndexName,
    ResolvedIndexVariant, ResolvedUnitExpr, ResolvedUnitExprItem, ResolvedUnitName, ResolvedUnitRef, TimeScale,
    TypeSystemRef, ZonedDateTimeLiteral,
};
use crate::hir::visit::owner_of;
use crate::syntax::ast::{
    AmbiguousGenericArg, Ident, IdentPath, IndexExpr, NamePath, ScopedName, TableIndexSpec, UnitExpr, UnitExprItem,
    UnitRef,
};
use crate::syntax::names::{
    DeclName, FieldName, FnName, GenericParamName, IndexVariantName, ModuleAliasName, NameAtom,
};
use crate::syntax::non_empty::NonEmpty;
use crate::syntax::span::{Span, Spanned};
use crate::syntax::term::{seq_terms, DeepClone, Spans, Syntax, Tag, Term};
use vstd::prelude::*;
use vstd::string::StringExecFns;

verus! {

/// What resolving a name gave, as a term.
pub open spec fn lower_result<T: Syntax>(r: Result<T, ExprLowerError>) -> Result<Term, Term> {
    match r {
        Ok(value) => Ok(value.term(Spans::Kept)),
        Err(error) => Err(error.to_term()),
    }
}

/// What resolving an expression without sub-expressions gave, as a term.
pub open spec fn kind_result(r: Result<ExprKind, ExprLowerError>) -> Result<Term, Term> {
    match r {
        Ok(kind) => Ok(kind.to_term()),
        Err(error) => Err(error.to_term()),
    }
}

impl ModuleResolveError {
    /// Whether the error is that a name is unknown.
    pub fn is_unknown_name(&self) -> (r: bool)
        ensures
            r == has_tag(self.to_term(), Tag::UnknownName),
    {
        match self {
            ModuleResolveError::UnknownName { .. } => true,
            _ => false,
        }
    }

    /// Whether the error is that the qualifier of a name is unknown.
    pub fn is_unknown_alias(&self) -> (r: bool)
        ensures
            r == has_tag(self.to_term(), Tag::UnknownModuleAlias),
    {
        match self {
            ModuleResolveError::UnknownModuleAlias { .. } => true,
            _ => false,
        }
    }

    /// Whether the error is that a module is unknown.
    pub fn is_unknown_module(&self) -> (r: bool)
        ensures
            r == has_tag(self.to_term(), Tag::UnknownModule),
    {
        match self {
            ModuleResolveError::UnknownModule { .. } => true,
            _ => false,
        }
    }

    /// Whether the error is that an index has no such variant.
    pub fn is_unknown_variant(&self) -> (r: bool)
        ensures
            r == has_tag(self.to_term(), Tag::UnknownIndexVariant),
    {
        match self {
            ModuleResolveError::UnknownIndexVariant { .. } => true,
            _ => false,
        }
    }
}

impl ScopedName {
    /// A scoped name is determined by its path.
    pub proof fn lemma_term(self)
        ensures
            self.term(Spans::Kept) == scoped_term(scoped_path(self)),
    {
        let path = scoped_path(self);
        assert(path.drop_last() =~= Seq::new(self.qualifier@.len(), |i: int| self.qualifier@[i].text@));
        assert(seq_terms(self.qualifier@, Spans::Kept) =~= Seq::new(
            (path.len() - 1) as nat,
            |i: int| Term::Text(path[i]),
        ));
    }

    /// Whether the name has a qualifier.
    pub fn is_qualified(&self) -> (r: bool)
        ensures
            r == (self.qualifier@.len() > 0),
    {
        self.qualifier.len() > 0
    }

    /// The name with the names that qualify it, as a path.
    pub fn to_name_path(&self) -> (r: NamePath)
        ensures
            names_of(r) == scoped_path(*self),
    {
        if self.qualifier.len() == 0 {
            let r = NamePath::local(NameAtom { text: self.member.text.clone() });
            assert(names_of(r) =~= scoped_path(*self));
            return r;
        }
        let mut rest: Vec<NameAtom> = Vec::new();
        for i in 1..self.qualifier.len()
            invariant
                rest@.len() == i - 1,
                forall|j: int| 0 <= j < i - 1 ==> (#[trigger] rest@[j]).text@ == self.qualifier@[j + 1].text@,
        {
            rest.push(NameAtom { text: self.qualifier[i].text.clone() });
        }
        rest.push(NameAtom { text: self.member.text.clone() });
        let first = NameAtom { text: self.qualifier[0].text.clone() };
        let r = NamePath { segments: NonEmpty::new(first, rest) };
        assert(names_of(r) =~= scoped_path(*self));
        r
    }

    /// The scoped name of a path.
    pub fn from_path(path: &NamePath) -> (r: ScopedName)
        ensures
            scoped_path(r) == names_of(*path),
    {
        let mut qualifier: Vec<NameAtom> = Vec::new();
        for i in 0..path.segments.rest.len()
            invariant
                qualifier@.len() == i,
                forall|j: int| 0 <= j < i ==> (#[trigger] qualifier@[j]).text@ == names_of(*path)[j],
        {
            qualifier.push(NameAtom { text: path.segments.get(i).text.clone() });
        }
        let r = ScopedName { qualifier, member: NameAtom { text: path.segments.last().text.clone() } };
        assert(scoped_path(r) =~= names_of(*path));
        r
    }
}

impl UnitRef {
    /// The unit's name with its qualifier, as a path.
    pub fn to_name_path(&self) -> (r: NamePath)
        ensures
            names_of(r) == unit_path(*self),
    {
        let name = NameAtom { text: self.name.atom.text.clone() };
        match &self.qualifier {
            None => NamePath::local(name),
            Some(qualifier) => {
                let mut rest: Vec<NameAtom> = Vec::new();
                rest.push(name);
                let first = NameAtom { text: qualifier.text.clone() };
                let r = NamePath { segments: NonEmpty::new(first, rest) };
                assert(names_of(r) =~= unit_path(*self));
                r
            },
        }
    }
}

impl UnitRef {
    /// The unit as it is written.
    pub fn display_path(&self) -> (r: String)
        ensures
            r@ == dotted_path(unit_path(*self)),
    {
        let path = self.to_name_path();
        proof {
            lemma_path_names(path);
        }
        path.display_path()
    }
}

impl NamePath {
    /// The last name.
    pub fn leaf(&self) -> (r: &NameAtom)
        ensures
            r.text@ == names_of(*self).last(),
    {
        self.segments.last()
    }
}

impl TableIndexSpec {
    /// Whether the axis is a finite index.
    pub fn is_finite_index(&self) -> (r: bool)
        ensures
            r == (*self is Finite),
    {
        match self {
            TableIndexSpec::Named(_) => false,
            TableIndexSpec::Finite { .. } => true,
        }
    }
}

impl UnitExprItem {
    /// The power of the unit: one, where none is written.
    pub fn effective_power(&self) -> (r: ExactRational)
        ensures
            r.term(Spans::Kept) == effective_power(*self),
    {
        match &self.power {
            Some(power) => *power,
            None => ExactRational::from_integer(1),
        }
    }
}

impl IdentPath {
    pub fn span(&self) -> (r: Span)
        ensures
            r == ident_path_span(*self),
    {
        self.segments.first.span.merge(self.segments.last().span)
    }

    /// The span of everything before the last name.
    pub fn qualifier_span(&self) -> (r: Span)
        ensures
            r == qualifier_span(*self, self.segments@.len() - 1),
    {
        let mut span = self.segments.first.span;
        if self.segments.rest.len() == 0 {
            return span;
        }
        for i in 1..self.segments.rest.len()
            invariant
                span == qualifier_span(*self, i as int),
        {
            span = span.merge(self.segments.get(i).span);
        }
        span
    }

    /// The span of what stands before the last name, if anything does.
    pub fn written_index_span(&self) -> (r: Option<Span>)
        ensures
            r == written_index_span(*self),
    {
        if self.segments.rest.len() == 0 {
            None
        } else {
            Some(self.qualifier_span())
        }
    }
}

impl crate::syntax::ast::ModulePath {
    /// The same path without positions.
    pub fn to_name_path(&self) -> (r: NamePath)
        ensures
            names_of(r) == segment_names(self.segments),
    {
        let mut rest: Vec<NameAtom> = Vec::new();
        for i in 0..self.segments.rest.len()
            invariant
                rest@.len() == i,
                forall|j: int| 0 <= j < i ==> (#[trigger] rest@[j]).text@ == self.segments.rest@[j].name.text@,
        {
            rest.push(copy_atom(&self.segments.rest[i].name));
        }
        let r = NamePath { segments: NonEmpty::new(copy_atom(&self.segments.first.name), rest) };
        assert(names_of(r) =~= segment_names(self.segments));
        r
    }

    /// The path as it is written.
    pub fn display_path(&self) -> (r: String)
        ensures
            r@ == dotted_path(segment_names(self.segments)),
    {
        let path = self.to_name_path();
        proof {
            lemma_path_names(path);
        }
        path.display_path()
    }
}

impl crate::syntax::ast::NatExpr {
    pub fn span(&self) -> (r: Span)
        ensures
            r == nat_span(*self),
    {
        match self {
            crate::syntax::ast::NatExpr::Literal(_, span) => *span,
            crate::syntax::ast::NatExpr::Var(ident) => ident.span,
            crate::syntax::ast::NatExpr::Add(_, span) => *span,
            crate::syntax::ast::NatExpr::Mul(_, span) => *span,
        }
    }

    /// The expression as it is written.
    pub fn display(&self) -> (r: String)
        ensures
            r@ == nat_text(*self),
        decreases self,
    {
        match self {
            crate::syntax::ast::NatExpr::Literal(value, _) => crate::syntax::text::decimal_string(*value),
            crate::syntax::ast::NatExpr::Var(ident) => ident.name.text.clone(),
            crate::syntax::ast::NatExpr::Add(operands, _) => crate::syntax::ast::NatExpr::display_all(
                operands,
                " + ",
            ),
            crate::syntax::ast::NatExpr::Mul(operands, _) => crate::syntax::ast::NatExpr::display_all(
                operands,
                " * ",
            ),
        }
    }

    fn display_all(v: &Vec<crate::syntax::ast::NatExpr>, between: &str) -> (r: String)
        ensures
            r@ == nats_text(*v, v.len() as nat, between@),
        decreases v,
    {
        let mut text: String = String::new();
        proof {
            reveal_strlit("");
            assert(text@ =~= ""@);
        }
        for i in 0..v.len()
            invariant
                text@ == nats_text(*v, i as nat, between@),
        {
            if i > 0 {
                text.append(between);
            }
            let item = v[i].display();
            let ghost before = text@;
            text.append(item.as_str());
            assert(before + item@ == text@);
            proof {
                reveal_strlit("");
                if i == 0 {
                    assert(text@ =~= item@);
                }
            }
        }
        text
    }
}

impl IndexExpr {
    pub fn span(&self) -> (r: Span)
        ensures
            r == index_expr_span(*self),
    {
        match self {
            IndexExpr::Name(path) => path.span,
            IndexExpr::Finite { cardinality, span } => *span,
            IndexExpr::BareNat(n) => n.span(),
        }
    }
}

impl ast::GenericArg {
    pub fn span(&self) -> (r: Span)
        ensures
            r == generic_arg_span(*self),
    {
        match self {
            ast::GenericArg::Type(t) => t.span,
            ast::GenericArg::Index(index) => index.span(),
            ast::GenericArg::Nat(n) => n.span(),
            ast::GenericArg::Ambiguous(AmbiguousGenericArg::Name(ident)) => ident.span,
            ast::GenericArg::Ambiguous(AmbiguousGenericArg::Mul(_, span)) => *span,
        }
    }
}

fn first_generic_span(args: &Vec<ast::GenericArg>, otherwise: Span) -> (r: Span)
    ensures
        r == first_arg_span(args@, otherwise),
{
    if args.len() == 0 { otherwise } else { args[0].span() }
}

pub(crate) fn copy_atom(name: &NameAtom) -> (r: NameAtom)
    ensures
        r.text@ == name.text@,
{
    NameAtom { text: name.text.clone() }
}

impl<'a> ExprLoweringContext<'a> {
    /// A declaration of a module inside this one.
    fn resolve_synthetic_child_decl_path(&self, path: &NamePath) -> (r: Option<ResolvedDeclName>)
        ensures
            match r {
                Some(name) => child_decl(self@, names_of(*path)) == Some(
                    Target { owner: owner_of(name.owner), name: name.name.atom.text@ },
                ) && name.term(Spans::Kept) == target_term(
                    Tag::HirResolvedDeclName,
                    child_decl(self@, names_of(*path))->0,
                ),
                None => child_decl(self@, names_of(*path)) is None,
            },
    {
        let ghost names = names_of(*path);
        if path.segments.rest.len() == 0 {
            return None;
        }
        let mut owner = self.owner.copy();
        assert(self@.owner + names.subrange(0, 0) =~= self@.owner);
        for i in 0..path.segments.rest.len()
            invariant
                names == names_of(*path),
                owner_of(owner) == self@.owner + names.subrange(0, i as int),
        {
            let next = owner.child(path.segments.get(i));
            assert(owner_of(next) =~= self@.owner + names.subrange(0, i as int + 1));
            owner = next;
        }
        assert(names.subrange(0, names.len() - 1) =~= names.drop_last());
        if self.resolver.has_decl(&owner, path.segments.last()) {
            proof {
                lemma_dag_term(owner);
            }
            Some(ResolvedDeclName { owner, name: DeclName { atom: copy_atom(path.segments.last()) } })
        } else {
            None
        }
    }

    /// What a graph reference denotes.
    pub(crate) fn resolve_decl_scoped_name(&self, name: &ScopedName, span: Span) -> (r: Result<
        ResolvedDeclName,
        ExprLowerError,
    >)
        ensures
            lower_result(r) == graph_ref(self@, scoped_path(*name), span),
    {
        reveal(graph_ref);
        proof {
            name.lemma_term();
        }
        match self.bound_decl(name) {
            Some(target) => return Ok(target.deep_clone()),
            None => {},
        }
        let path = name.to_name_path();
        let error = match self.resolver.resolve_decl_path(self.owner, &path) {
            Ok(target) => return Ok(target),
            Err(error) => error,
        };
        if error.is_unknown_alias() {
            match self.resolve_synthetic_child_decl_path(&path) {
                Some(target) => return Ok(target),
                None => {},
            }
        }
        if error.is_unknown_name() {
            Err(ExprLowerError::unknown_graph_ref(name.deep_clone(), span))
        } else {
            Err(ExprLowerError::module_resolve(error, span))
        }
    }

    /// What a name of the language itself denotes as a constant.
    fn lower_known_const(&self, name: &NameAtom) -> (r: Option<ConstRef>)
        ensures
            match r {
                Some(constant) => known_const(self@, name.text@) == Some(constant.term(Spans::Kept)),
                None => known_const(self@, name.text@) is None,
            },
    {
        match BuiltinConst::parse(&name.text) {
            Some(constant) => return Some(ConstRef::Builtin(constant)),
            None => {},
        }
        match TimeScale::parse(&name.text) {
            Some(scale) => return Some(ConstRef::TimeScale(scale)),
            None => {},
        }
        if self.generic_scope.is_nat_param(name) {
            Some(ConstRef::GenericNatParam(GenericParamId { name: GenericParamName { atom: copy_atom(name) } }))
        } else {
            None
        }
    }

    /// What a name denotes as a constant.
    pub(crate) fn lower_const_ref(&self, path: &NamePath, span: Span) -> (r: Result<ConstRef, ExprLowerError>)
        ensures
            lower_result(r) == const_ref(self@, names_of(*path), span),
    {
        reveal(const_ref);
        if path.segments.rest.len() == 0 {
            assert(names_of(*path).last() == path.segments.first.text@);
            match self.lower_known_const(&path.segments.first) {
                Some(constant) => return Ok(constant),
                None => {},
            }
        }
        let name = ScopedName::from_path(path);
        proof {
            name.lemma_term();
        }
        match self.bound_decl(&name) {
            Some(target) => return Ok(ConstRef::Decl(target.deep_clone())),
            None => {},
        }
        self.lower_declared_const(path, span)
    }

    fn lower_declared_const(&self, path: &NamePath, span: Span) -> (r: Result<ConstRef, ExprLowerError>)
        ensures
            lower_result(r) == declared_const(self@, names_of(*path), span),
    {
        reveal(declared_const);
        let error = match self.resolver.resolve_const_decl_path(self.owner, path) {
            Ok(target) => return Ok(ConstRef::Decl(target)),
            Err(error) => error,
        };
        match self.resolve_synthetic_child_decl_path(path) {
            Some(target) => {
                match self.resolver.decl_symbol_kind(&target) {
                    Some(DeclSymbolKind::Const) => return Ok(ConstRef::Decl(target)),
                    _ => {},
                }
            },
            None => {},
        }
        match self.resolver.resolve_constructor_path(self.owner, path) {
            Ok(constructor) => Ok(ConstRef::Constructor(constructor)),
            Err(_) => Err(ExprLowerError::module_resolve(error, span)),
        }
    }

    /// What a bare name denotes in the type system, if anything.
    fn resolve_bare_type_system_name(&self, path: &NamePath, name: &NameAtom, span: Span) -> (r: Result<
        Option<TypeSystemRef>,
        ExprLowerError,
    >)
        requires
            names_of(*path) == seq![name.text@],
        ensures
            match r {
                Ok(Some(t)) => type_system_ref(self@, name.text@, span) == Ok::<Option<Term>, Term>(
                    Some(t.term(Spans::Kept)),
                ),
                Ok(None) => type_system_ref(self@, name.text@, span) == Ok::<Option<Term>, Term>(None),
                Err(error) => type_system_ref(self@, name.text@, span) == Err::<Option<Term>, Term>(error.to_term()),
            },
    {
        reveal(type_system_ref);
        match self.resolver.resolve_struct_type_path(self.owner, path) {
            Ok(t) => return Ok(Some(TypeSystemRef::Type(t))),
            Err(_) => {},
        }
        match self.resolver.resolve_dimension_path(self.owner, path) {
            Ok(dimension) => return Ok(Some(TypeSystemRef::Dimension(dimension))),
            Err(_) => {},
        }
        match self.prelude {
            Some(prelude) => match prelude.resolve_dimension_path(path) {
                Some(dimension) => {
                    proof {
                        lemma_dag_term(dimension.owner);
                    }
                    return Ok(Some(TypeSystemRef::Dimension(dimension)));
                },
                None => {},
            },
            None => {},
        }
        match self.resolver.resolve_index_path(self.owner, path) {
            Ok(index) => return Ok(Some(TypeSystemRef::Index(index))),
            Err(_) => {},
        }
        let variant = IndexVariantName { atom: copy_atom(name) };
        match self.resolver.resolve_bare_index_variant(self.owner, &variant) {
            Ok(variant) => Ok(Some(TypeSystemRef::IndexVariant(variant))),
            Err(error) => if error.is_unknown_name() {
                Ok(None)
            } else {
                Err(ExprLowerError::module_resolve(error, span))
            },
        }
    }

    /// What a bare name denotes that is no local.
    pub(crate) fn lower_module_name(&self, ident: &Ident) -> (r: Result<ExprKind, ExprLowerError>)
        ensures
            kind_result(r) == module_ref(self@, ident.name.text@, ident.span),
            r is Ok ==> !r->Ok_0.has_error(),
    {
        reveal(module_ref);
        reveal(ExprKind::to_term);
        reveal(ExprKind::has_error);
        let span = ident.span;
        match BuiltinConst::parse(&ident.name.text) {
            Some(constant) => return Ok(
                ExprKind::ConstRef(Spanned { value: ConstRef::Builtin(constant), span }),
            ),
            None => {},
        }
        match TimeScale::parse(&ident.name.text) {
            Some(scale) => return Ok(ExprKind::ConstRef(Spanned { value: ConstRef::TimeScale(scale), span })),
            None => {},
        }
        let path = NamePath::local(copy_atom(&ident.name));
        match self.resolver.resolve_constructor_path(self.owner, &path) {
            Ok(constructor) => {
                let kind = ExprKind::ConstructorCall {
                    callee: Spanned { value: constructor, span },
                    generic_args: Vec::new(),
                    fields: Vec::new(),
                };
                proof {
                    assert(seq_terms(kind->ConstructorCall_generic_args@, Spans::Kept) =~= Seq::empty());
                    assert(crate::hir::tree::FieldInit::terms(kind->ConstructorCall_fields) =~= Seq::empty());
                }
                return Ok(kind);
            },
            Err(_) => {},
        }
        match self.resolve_bare_type_system_name(&path, &ident.name, span) {
            Err(error) => return Err(error),
            Ok(Some(t)) => return Ok(ExprKind::TypeSystemRef(Spanned { value: t, span })),
            Ok(None) => {},
        }
        match self.lower_const_ref(&path, span) {
            Ok(constant) => Ok(ExprKind::ConstRef(Spanned { value: constant, span })),
            Err(error) => Err(error),
        }
    }

    /// A variant of an index, or why it is none.
    pub(crate) fn resolve_index_variant_parts(
        &self,
        index: &NamePath,
        variant: &IndexVariantName,
        index_span: Span,
        variant_span: Span,
    ) -> (r: Result<ResolvedIndexVariant, ExprLowerError>)
        ensures
            lower_result(r) == variant_parts(
                self@,
                names_of(*index),
                variant.atom.text@,
                index_span,
                variant_span,
            ),
    {
        reveal(variant_parts);
        match self.resolver.resolve_index_variant_parts(self.owner, index, variant) {
            Ok(variant) => Ok(variant),
            Err(error) => {
                let span = if error.is_unknown_variant() { variant_span } else { index_span };
                Err(ExprLowerError::module_resolve(error, span))
            },
        }
    }

    /// A path with dots as a variant of an index.
    fn resolve_variant_literal_path(&self, path: &IdentPath) -> (r: Option<IndexVariantRef>)
        ensures
            match r {
                Some(variant) => crate::hir::resolve::variant_path_resolution(
                    self@.modules,
                    self@.owner,
                    idents_of(*path),
                ) == Ok::<Term, Term>(variant.variant.term(Spans::Kept)) && written_index_span(*path) is Some
                    && variant.term(Spans::Kept) == variant_ref(
                    variant.variant.term(Spans::Kept),
                    written_index_span(*path),
                    Seq::empty(),
                    path.segments@.last().span,
                ),
                None => written_index_span(*path) is None || crate::hir::resolve::variant_path_resolution(
                    self@.modules,
                    self@.owner,
                    idents_of(*path),
                ) is Err,
            },
    {
        let index_span = match path.written_index_span() {
            Some(span) => span,
            None => return None,
        };
        match self.resolver.resolve_index_variant_path(self.owner, &path.to_name_path()) {
            Ok(variant) => Some(
                new_variant_ref(variant, Some(index_span), Vec::new(), path.segments.last().span),
            ),
            Err(_) => None,
        }
    }

    /// What a path with dots denotes where an expression stands.
    pub(crate) fn lower_dotted_path_ref(&self, path: &IdentPath) -> (r: Result<ExprKind, ExprLowerError>)
        ensures
            kind_result(r) == dotted_ref(self@, *path),
            r is Ok ==> !r->Ok_0.has_error(),
    {
        reveal(dotted_ref);
        reveal(ExprKind::to_term);
        reveal(ExprKind::has_error);
        if path.segments.rest.len() == 1 {
            let first = &*path.segments.first;
            let second = &path.segments.rest[0];
            let index = NamePath::local(copy_atom(&first.name));
            assert(path.segments@[0] == *first && path.segments@[1] == *second);
            assert(idents_of(*path)[0] == first.name.text@);
            assert(idents_of(*path)[1] == second.name.text@);
            if self.resolver.resolve_index_path(self.owner, &index).is_ok() {
                let variant = IndexVariantName { atom: copy_atom(&second.name) };
                return match self.resolve_index_variant_parts(&index, &variant, first.span, second.span) {
                    Err(error) => Err(error),
                    Ok(variant) => Ok(
                        ExprKind::VariantLiteral(new_variant_ref(variant, Some(first.span), Vec::new(), second.span)),
                    ),
                };
            }
        }
        let span = path.span();
        match self.lower_const_ref(&path.to_name_path(), span) {
            Ok(constant) => Ok(ExprKind::ConstRef(Spanned { value: constant, span })),
            Err(error) => match self.resolve_variant_literal_path(path) {
                Some(variant) => Ok(ExprKind::VariantLiteral(variant)),
                None => Err(error),
            },
        }
    }

    /// `@alias.member`, where that denotes a declaration of an imported module.
    pub(crate) fn resolve_alias_field_access(&self, inner: &ast::Expr, field: &Spanned<FieldName>) -> (r: Option<
        ExprKind,
    >)
        ensures
            match r {
                Some(kind) => alias_field(self@, *inner, *field) == Some(kind.to_term()) && !kind.has_error(),
                None => alias_field(self@, *inner, *field) is None,
            },
    {
        reveal(alias_field);
        reveal(ExprKind::to_term);
        reveal(ExprKind::has_error);
        match &inner.kind {
            ast::ExprKind::GraphRef(name) => {
                if name.value.is_qualified() {
                    return None;
                }
                let mut rest: Vec<NameAtom> = Vec::new();
                rest.push(copy_atom(&field.value.atom));
                let path = NamePath { segments: NonEmpty::new(copy_atom(&name.value.member), rest) };
                assert(names_of(path) =~= seq![name.value.member.text@, field.value.atom.text@]);
                match self.resolver.resolve_decl_path(self.owner, &path) {
                    Ok(target) => Some(
                        ExprKind::GraphRef(Spanned { value: target, span: name.span.merge(field.span) }),
                    ),
                    Err(_) => None,
                }
            },
            _ => None,
        }
    }

    /// An index, with where it is written.
    pub(crate) fn lower_index(&self, path: &Spanned<NamePath>) -> (r: Result<
        Spanned<ResolvedIndexName>,
        ExprLowerError,
    >)
        ensures
            lower_result(r) == spanned_index(self@, *path),
    {
        reveal(spanned_index);
        match self.resolver.resolve_index_path(self.owner, &path.value) {
            Ok(index) => Ok(Spanned { value: index, span: path.span }),
            Err(error) => Err(ExprLowerError::module_resolve(error, path.span)),
        }
    }

    fn lower_unit(&self, reference: &UnitRef, span: Span) -> (r: Result<ResolvedUnitName, ExprLowerError>)
        ensures
            lower_result(r) == unit_target(self@, *reference, span),
    {
        reveal(unit_target);
        let error = match self.resolver.resolve_unit_path(self.owner, &reference.to_name_path()) {
            Ok(unit) => return Ok(unit),
            Err(error) => error,
        };
        if !error.is_unknown_name() {
            return Err(ExprLowerError::module_resolve(error, span));
        }
        match self.prelude {
            Some(prelude) => match prelude.resolve_unit_ref(reference) {
                Some(unit) => {
                    proof {
                        lemma_dag_term(unit.owner);
                    }
                    return Ok(unit);
                },
                None => {},
            },
            None => {},
        }
        match self.unit_registry {
            Some(registry) => if reference.qualifier.is_none() && registry.has_unit(&reference.name) {
                let unit = ResolvedUnitName {
                    owner: self.owner.copy(),
                    name: crate::syntax::names::UnitName { atom: copy_atom(&reference.name.atom) },
                };
                proof {
                    lemma_dag_term(unit.owner);
                }
                return Ok(unit);
            },
            None => {},
        }
        Err(ExprLowerError::unknown_unit(reference.deep_clone(), span))
    }

    fn lower_unit_item(&self, item: &UnitExprItem) -> (r: Result<ResolvedUnitExprItem, ExprLowerError>)
        ensures
            lower_result(r) == unit_item(self@, *item),
    {
        reveal(unit_item);
        match self.lower_unit(&item.name.value, item.name.span) {
            Err(error) => Err(error),
            Ok(resolved) => Ok(
                ResolvedUnitExprItem {
                    op: item.op,
                    name: Spanned {
                        value: ResolvedUnitRef { spelling: item.name.value.deep_clone(), resolved },
                        span: item.name.span,
                    },
                    power: item.effective_power(),
                },
            ),
        }
    }

    pub(crate) fn lower_unit_expr(&self, unit: &UnitExpr) -> (r: Result<ResolvedUnitExpr, ExprLowerError>)
        ensures
            lower_result(r) == unit_expr(self@, *unit),
    {
        reveal(unit_expr);
        let mut terms: Vec<ResolvedUnitExprItem> = Vec::new();
        assert(seq_terms(terms@, Spans::Kept) =~= Seq::empty());
        for i in 0..unit.terms.len()
            invariant
                unit_items(self@, unit.terms@, i as nat) == Ok::<Seq<Term>, Term>(seq_terms(terms@, Spans::Kept)),
        {
            match self.lower_unit_item(&unit.terms[i]) {
                Ok(item) => {
                    let ghost before = seq_terms(terms@, Spans::Kept);
                    terms.push(item);
                    assert(seq_terms(terms@, Spans::Kept) =~= before.push(item.term(Spans::Kept)));
                },
                Err(error) => {
                    proof {
                        reveal(unit_expr);
                        lemma_unit_items_fail(self@, unit.terms@, (i + 1) as nat);
                    }
                    return Err(error);
                },
            }
        }
        Ok(ResolvedUnitExpr { terms, span: unit.span })
    }

    /// What a natural-number expression denotes.
    pub(crate) fn lower_nat_expr(&self, n: &crate::syntax::ast::NatExpr) -> (r: Result<NatExpr, ExprLowerError>)
        ensures
            lower_result(r) == nat_expr(self@, *n),
        decreases n,
    {
        match n {
            crate::syntax::ast::NatExpr::Literal(value, span) => Ok(NatExpr::Literal(*value, *span)),
            crate::syntax::ast::NatExpr::Var(ident) => if self.generic_scope.is_nat_param(&ident.name) {
                Ok(nat_param_of(ident))
            } else {
                Err(ExprLowerError::unknown_nat_param(ident.name.text.clone(), ident.span))
            },
            crate::syntax::ast::NatExpr::Add(operands, span) => match self.lower_nat_exprs(operands) {
                Ok(items) => Ok(NatExpr::Add(items, *span)),
                Err(error) => Err(error),
            },
            crate::syntax::ast::NatExpr::Mul(operands, span) => match self.lower_nat_exprs(operands) {
                Ok(items) => Ok(NatExpr::Mul(items, *span)),
                Err(error) => Err(error),
            },
        }
    }

    fn lower_nat_exprs(&self, v: &Vec<crate::syntax::ast::NatExpr>) -> (r: Result<Vec<NatExpr>, ExprLowerError>)
        ensures
            match r {
                Ok(items) => nat_exprs(self@, *v, v.len() as nat) == Ok::<Seq<Term>, Term>(
                    NatExpr::terms(items, Spans::Kept),
                ),
                Err(error) => nat_exprs(self@, *v, v.len() as nat) == Err::<Seq<Term>, Term>(error.to_term()),
            },
        decreases v,
    {
        let mut items: Vec<NatExpr> = Vec::new();
        assert(NatExpr::terms(items, Spans::Kept) =~= Seq::empty());
        for i in 0..v.len()
            invariant
                nat_exprs(self@, *v, i as nat) == Ok::<Seq<Term>, Term>(NatExpr::terms(items, Spans::Kept)),
        {
            match self.lower_nat_expr(&v[i]) {
                Ok(item) => {
                    let ghost before = items;
                    items.push(item);
                    assert(NatExpr::terms(items, Spans::Kept) =~= NatExpr::terms(before, Spans::Kept).push(
                        item.to_term(Spans::Kept),
                    ));
                },
                Err(error) => {
                    proof {
                        lemma_nat_exprs_fail(self@, *v, (i + 1) as nat);
                    }
                    return Err(error);
                },
            }
        }
        Ok(items)
    }

    /// The index that a comprehension runs over.
    pub(crate) fn lower_for_index(&self, index: &crate::syntax::ast::ForBindingIndex) -> (r: Result<
        ForBindingIndex,
        ExprLowerError,
    >)
        ensures
            lower_result(r) == for_index(self@, *index),
    {
        reveal(for_index);
        match index {
            crate::syntax::ast::ForBindingIndex::Named(path) => match self.lower_index(path) {
                Ok(index) => Ok(ForBindingIndex::Named(index)),
                Err(error) => Err(error),
            },
            crate::syntax::ast::ForBindingIndex::Finite { cardinality, span } => match self.lower_nat_expr(
                cardinality,
            ) {
                Ok(n) => Ok(ForBindingIndex::Finite { cardinality: n, span: *span }),
                Err(error) => Err(error),
            },
        }
    }

    /// The axis of a key form.
    pub(crate) fn lower_key_axis(&self, axis: &IndexExpr) -> (r: Result<ForBindingIndex, ExprLowerError>)
        ensures
            lower_result(r) == key_axis(self@, *axis),
    {
        reveal(key_axis);
        match axis {
            IndexExpr::Name(path) => match self.lower_index(path) {
                Ok(index) => Ok(ForBindingIndex::Named(index)),
                Err(error) => Err(error),
            },
            IndexExpr::Finite { cardinality, span } => match self.lower_nat_expr(cardinality) {
                Ok(n) => Ok(ForBindingIndex::Finite { cardinality: n, span: *span }),
                Err(error) => Err(error),
            },
            IndexExpr::BareNat(n) => Err(ExprLowerError::expected_index_found_nat(n.display(), n.span())),
        }
    }

    /// The function that a path denotes.
    pub(crate) fn lower_function_ref(&self, callee: &IdentPath) -> (r: Result<FunctionRef, ExprLowerError>)
        ensures
            match r {
                Ok(f) => function_ref(self@, *callee) == Ok::<Fun, Term>(fun_of(f)),
                Err(error) => function_ref(self@, *callee) == Err::<Fun, Term>(error.to_term()),
            },
    {
        reveal(function_ref);
        if callee.segments.rest.len() == 0 {
            assert(idents_of(*callee)[0] == callee.segments.first.name.text@);
            return match BuiltinFnName::parse(&callee.segments.first.name.text) {
                Some(name) => Ok(FunctionRef::Builtin(name)),
                None => Err(ExprLowerError::unknown_function(callee.display_path(), callee.span())),
            };
        }
        if callee.segments.rest.len() == 1 {
            let alias = &callee.segments.first.name;
            let name = &callee.segments.rest[0].name;
            assert(idents_of(*callee)[0] == alias.text@);
            assert(idents_of(*callee)[1] == name.text@);
            match self.resolver.plugin_alias(self.owner, alias) {
                Some(plugin) => {
                    if !has_function(&plugin.functions, name) {
                        return Err(
                            ExprLowerError::unknown_extern_function(
                                alias.text.clone(),
                                name.text.clone(),
                                callee.span(),
                            ),
                        );
                    }
                    return Ok(
                        FunctionRef::External(
                            ExternFnRef {
                                plugin: plugin.path.deep_clone(),
                                alias: ModuleAliasName { atom: copy_atom(alias) },
                                name: FnName { atom: copy_atom(name) },
                            },
                        ),
                    );
                },
                None => {},
            }
        }
        Err(ExprLowerError::unknown_function(callee.display_path(), callee.span()))
    }

    /// A time zone by name.
    pub(crate) fn lower_iana_time_zone_id(&self, name: &String, span: Span) -> (r: Result<
        IanaTimeZoneId,
        ExprLowerError,
    >)
        ensures
            match r {
                Ok(zone) => time_zone(self@, name@, span) == Ok::<Seq<char>, Term>(zone.name@),
                Err(error) => time_zone(self@, name@, span) == Err::<Seq<char>, Term>(error.to_term()),
            },
    {
        reveal(time_zone);
        match self.time_zones.parse_iana_id(name) {
            Some(zone) => Ok(zone),
            None => Err(ExprLowerError::invalid_timezone(name.clone(), self.time_zones.version_string(), span)),
        }
    }
}

pub(crate) fn nat_param_of(ident: &Ident) -> (r: NatExpr)
    ensures
        r.term(Spans::Kept) == nat_param(ident.name.text@, ident.span),
{
    NatExpr::Param(GenericParamId { name: GenericParamName { atom: copy_atom(&ident.name) } }, ident.span)
}

/// A variant with the places of its parts.
pub(crate) fn new_variant_ref(
    variant: ResolvedIndexVariant,
    index_span: Option<Span>,
    additional_index_spans: Vec<Span>,
    variant_span: Span,
) -> (r: IndexVariantRef)
    ensures
        r.variant == variant,
        r.term(Spans::Kept) == variant_ref(
            variant.term(Spans::Kept),
            index_span,
            additional_index_spans@,
            variant_span,
        ),
{
    assert(seq_terms(additional_index_spans@, Spans::Kept) =~= Seq::new(
        additional_index_spans@.len(),
        |i: int| Term::At(additional_index_spans@[i]),
    ));
    IndexVariantRef { variant, index_span, additional_index_spans, variant_span }
}

fn has_function(functions: &Vec<FnName>, name: &NameAtom) -> (r: bool)
    ensures
        r == lists_function(functions@, name.text@),
{
    for i in 0..functions.len()
        invariant
            forall|j: int| 0 <= j < i ==> (#[trigger] functions@[j]).atom.text@ != name.text@,
    {
        if functions[i].atom.same(name) {
            return true;
        }
    }
    false
}

/// The function that a resolved reference is.
pub open spec fn fun_of(f: FunctionRef) -> Fun {
    match f {
        FunctionRef::Builtin(name) => Fun::Builtin(name),
        FunctionRef::Epoch { scale } => Fun::Epoch(scale.value, scale.span),
        FunctionRef::External(target) => Fun::External(target.term(Spans::Kept)),
    }
}

impl FunctionRef {
    /// The built-in function that this is, if it is one.
    pub fn builtin_name(&self) -> (r: Option<BuiltinFnName>)
        ensures
            r == fun_of(*self).builtin(),
    {
        match self {
            FunctionRef::Builtin(name) => Some(*name),
            FunctionRef::Epoch { .. } => Some(BuiltinFnName::Epoch),
            FunctionRef::External(_) => None,
        }
    }
}

/// The time scale that `epoch<Scale>` names.
fn lower_epoch_function_ref(args: &Vec<ast::GenericArg>, callee_span: Span) -> (r: Result<
    FunctionRef,
    ExprLowerError,
>)
    ensures
        match r {
            Ok(f) => epoch_ref(args@, callee_span) == Ok::<Fun, Term>(fun_of(f)),
            Err(error) => epoch_ref(args@, callee_span) == Err::<Fun, Term>(error.to_term()),
        },
{
    reveal(epoch_ref);
    if args.len() != 1 {
        return Err(
            ExprLowerError::epoch_time_scale_argument_count(args.len(), first_generic_span(args, callee_span)),
        );
    }
    match &args[0] {
        ast::GenericArg::Ambiguous(AmbiguousGenericArg::Name(ident)) => match TimeScale::parse(&ident.name.text) {
            Some(scale) => Ok(FunctionRef::Epoch { scale: Spanned { value: scale, span: ident.span } }),
            None => Err(ExprLowerError::unsupported_epoch_time_scale(ident.name.text.clone(), ident.span)),
        },
        _ => Err(ExprLowerError::invalid_epoch_time_scale_argument(args[0].span())),
    }
}

/// A function with its generic arguments.
pub(crate) fn lower_function_application(
    f: FunctionRef,
    args: &Vec<ast::GenericArg>,
    path: String,
    callee_span: Span,
) -> (r: Result<FunctionRef, ExprLowerError>)
    ensures
        match r {
            Ok(applied) => function_application(fun_of(f), args@, path@, callee_span) == Ok::<Fun, Term>(
                fun_of(applied),
            ),
            Err(error) => function_application(fun_of(f), args@, path@, callee_span) == Err::<Fun, Term>(
                error.to_term(),
            ),
        },
{
    reveal(function_application);
    match f {
        FunctionRef::Builtin(BuiltinFnName::Epoch) => lower_epoch_function_ref(args, callee_span),
        _ => if args.len() == 0 {
            Ok(f)
        } else {
            Err(
                ExprLowerError::unsupported_function_generic_args(path, first_generic_span(args, callee_span)),
            )
        },
    }
}

/// Whether a function takes this number of arguments.
pub(crate) fn check_function_arity(f: &FunctionRef, got: usize, span: Span) -> (r: Result<(), ExprLowerError>)
    ensures
        match r {
            Ok(_) => arity_error(fun_of(*f), got as int, span) is None,
            Err(error) => arity_error(fun_of(*f), got as int, span) == Some(error.to_term()),
        },
{
    reveal(arity_error);
    let name = match f.builtin_name() {
        Some(name) => name,
        None => return Ok(()),
    };
    match builtin_arity(name) {
        None => Ok(()),
        Some(expected) => if got == expected {
            Ok(())
        } else {
            Err(ExprLowerError::wrong_arity(name.as_str().to_owned(), expected, got, span))
        },
    }
}

/// A civil date and time in a time zone.
pub(crate) fn lower_zoned_literal(
    datetime: CivilDateTimeLiteral,
    zone: &IanaTimeZoneId,
    datetime_span: Span,
    zone_span: Span,
) -> (r: Result<ZonedDateTimeLiteral, ExprLowerError>)
    ensures
        lower_result(r) == zoned_literal(datetime, zone.name@, datetime_span, zone_span),
{
    reveal(zoned_literal);
    let time_zone = zone.deep_clone();
    match datetime.in_zone(zone) {
        ZonedResult::Instant(second, nanosecond) => Ok(
            ZonedDateTimeLiteral { datetime, time_zone, second, nanosecond },
        ),
        ZonedResult::Gap(before, after) => Err(
            ExprLowerError::nonexistent_civil_date_time(
                datetime,
                time_zone,
                before,
                after,
                datetime_span,
                zone_span,
            ),
        ),
        ZonedResult::Fold(before, after) => Err(
            ExprLowerError::repeated_civil_date_time(
                datetime,
                time_zone,
                before,
                after,
                datetime_span,
                zone_span,
            ),
        ),
        ZonedResult::NoZone => Err(
            ExprLowerError::time_zone_registry_invariant(
                time_zone,
                "the bundled database does not hold it".to_owned(),
                zone_span,
            ),
        ),
        ZonedResult::OutOfRange => Err(
            ExprLowerError::invalid_datetime_literal(
                DatetimeLiteralExpectation::ZonedCivilDateTime,
                "the instant is out of range".to_owned(),
                datetime_span,
            ),
        ),
    }
}

proof fn lemma_unit_items_fail(c: Ctx, items: Seq<UnitExprItem>, n: nat)
    requires
        unit_items(c, items, n) is Err,
        n <= items.len(),
    ensures
        unit_items(c, items, items.len()) == unit_items(c, items, n),
    decreases items.len() - n,
{
    if n < items.len() {
        lemma_unit_items_fail(c, items, n + 1);
    }
}

proof fn lemma_nat_exprs_fail(c: Ctx, v: Vec<crate::syntax::ast::NatExpr>, n: nat)
    requires
        nat_exprs(c, v, n) is Err,
        n <= v.len(),
    ensures
        nat_exprs(c, v, v.len() as nat) == nat_exprs(c, v, n),
    decreases v.len() - n,
{
    if n < v.len() {
        lemma_nat_exprs_fail(c, v, n + 1);
    }
}

} // verus!
