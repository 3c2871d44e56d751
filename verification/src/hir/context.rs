//! What expressions are resolved against.

use crate::hir::datetime::TimeZoneRegistry;
use crate::hir::resolve::{names_of, ModuleResolver, ModuleSymbols};
use crate::hir::tree::{DagId, ResolvedDeclName, ResolvedDimName, ResolvedUnitName};
use crate::hir::visit::owner_of;
use crate::syntax::ast::{GenericConstraint, NamePath, ScopedName, UnitRef};
use crate::syntax::names::{DimName, GenericParamName, NameAtom, UnitName};
use crate::syntax::term::{seq_terms, Spans, Syntax, Term};
use vstd::prelude::*;

verus! {

/// A generic parameter in scope.
#[derive(Debug)]
pub struct GenericBinding {
    pub name: GenericParamName,
    pub constraint: GenericConstraint,
}

/// The generic parameters in scope.
#[derive(Debug)]
pub struct GenericScope {
    pub params: Vec<GenericBinding>,
}

/// The place of a generic parameter.
pub open spec fn generic_at(params: Seq<GenericBinding>, name: Seq<char>, i: int) -> Option<int>
    decreases params.len() - i,
{
    if i < 0 || i >= params.len() {
        None
    } else if params[i].name.atom.text@ == name {
        Some(i)
    } else {
        generic_at(params, name, i + 1)
    }
}

/// Whether a name is a generic parameter of a kind.
pub open spec fn is_param(params: Seq<GenericBinding>, constraint: GenericConstraint, name: Seq<char>) -> bool {
    match generic_at(params, name, 0) {
        Some(i) => params[i].constraint == constraint,
        None => false,
    }
}

/// Whether a name is a generic parameter that stands for a natural number.
pub open spec fn is_nat_param(params: Seq<GenericBinding>, name: Seq<char>) -> bool {
    is_param(params, GenericConstraint::Nat, name)
}

impl GenericScope {
    pub fn new() -> (r: GenericScope)
        ensures
            r.params@.len() == 0,
    {
        GenericScope { params: Vec::new() }
    }

    pub fn is_nat_param(&self, name: &NameAtom) -> (r: bool)
        ensures
            r == is_nat_param(self.params@, name.text@),
    {
        self.is_param(GenericConstraint::Nat, name)
    }

    /// Whether a name is a generic parameter of a kind.
    pub fn is_param(&self, constraint: GenericConstraint, name: &NameAtom) -> (r: bool)
        ensures
            r == is_param(self.params@, constraint, name.text@),
    {
        for i in 0..self.params.len()
            invariant
                generic_at(self.params@, name.text@, 0) == generic_at(self.params@, name.text@, i as int),
        {
            if self.params[i].name.atom.same(name) {
                return self.params[i].constraint == constraint;
            }
        }
        false
    }
}

/// The units and dimensions that every file knows.
#[derive(Debug)]
pub struct PreludeTypeScope {
    pub owner: DagId,
    pub units: Vec<UnitName>,
    pub dimensions: Vec<DimName>,
}

/// Whether a unit is in a list.
pub open spec fn lists_unit(units: Seq<UnitName>, name: Seq<char>) -> bool {
    exists|i: int| 0 <= i < units.len() && (#[trigger] units[i]).atom.text@ == name
}

/// Whether a dimension is in a list.
pub open spec fn lists_dimension(dimensions: Seq<DimName>, name: Seq<char>) -> bool {
    exists|i: int| 0 <= i < dimensions.len() && (#[trigger] dimensions[i]).atom.text@ == name
}

fn find_unit(units: &Vec<UnitName>, name: &NameAtom) -> (r: bool)
    ensures
        r == lists_unit(units@, name.text@),
{
    for i in 0..units.len()
        invariant
            forall|j: int| 0 <= j < i ==> (#[trigger] units@[j]).atom.text@ != name.text@,
    {
        if units[i].atom.same(name) {
            return true;
        }
    }
    false
}

fn find_dimension(dimensions: &Vec<DimName>, name: &NameAtom) -> (r: bool)
    ensures
        r == lists_dimension(dimensions@, name.text@),
{
    for i in 0..dimensions.len()
        invariant
            forall|j: int| 0 <= j < i ==> (#[trigger] dimensions@[j]).atom.text@ != name.text@,
    {
        if dimensions[i].atom.same(name) {
            return true;
        }
    }
    false
}

impl PreludeTypeScope {
    /// The prelude's unit that a reference without qualifier names.
    pub fn resolve_unit_ref(&self, reference: &UnitRef) -> (r: Option<ResolvedUnitName>)
        ensures
            r is Some == (reference.qualifier is None && lists_unit(self.units@, reference.name.atom.text@)),
            r is Some ==> owner_of(r->0.owner) == owner_of(self.owner) && r->0.name.atom.text@
                == reference.name.atom.text@,
    {
        if reference.qualifier.is_some() || !find_unit(&self.units, &reference.name.atom) {
            return None;
        }
        Some(
            ResolvedUnitName {
                owner: self.owner.copy(),
                name: UnitName { atom: NameAtom { text: reference.name.atom.text.clone() } },
            },
        )
    }

    /// The prelude's dimension that a path without qualifier names.
    pub fn resolve_dimension_path(&self, path: &NamePath) -> (r: Option<ResolvedDimName>)
        ensures
            r is Some == (names_of(*path).len() == 1 && lists_dimension(self.dimensions@, names_of(*path)[0])),
            r is Some ==> owner_of(r->0.owner) == owner_of(self.owner) && r->0.name.atom.text@ == names_of(*path)[0],
    {
        assert(path.segments.first.text@ == names_of(*path)[0]);
        if path.segments.rest.len() > 0 || !find_dimension(&self.dimensions, &path.segments.first) {
            return None;
        }
        Some(
            ResolvedDimName {
                owner: self.owner.copy(),
                name: DimName { atom: NameAtom { text: path.segments.first.text.clone() } },
            },
        )
    }
}

/// The units that are registered.
#[derive(Debug)]
pub struct UnitRegistry {
    pub units: Vec<UnitName>,
}

impl UnitRegistry {
    pub fn has_unit(&self, name: &UnitName) -> (r: bool)
        ensures
            r == lists_unit(self.units@, name.atom.text@),
    {
        find_unit(&self.units, &name.atom)
    }
}

/// A name that is bound to a declaration from outside.
#[derive(Debug)]
pub struct DeclBinding {
    pub name: ScopedName,
    pub target: ResolvedDeclName,
}

/// What a name is bound to from outside.
pub open spec fn bound_decl(bindings: Seq<DeclBinding>, name: Term, i: int) -> Option<ResolvedDeclName>
    decreases bindings.len() - i,
{
    if i < 0 || i >= bindings.len() {
        None
    } else if bindings[i].name.term(Spans::Kept) == name {
        Some(bindings[i].target)
    } else {
        bound_decl(bindings, name, i + 1)
    }
}

/// What an expression is resolved against.
#[derive(Clone, Copy)]
pub struct ExprLoweringContext<'a> {
    pub owner: &'a DagId,
    pub resolver: &'a ModuleResolver,
    pub generic_scope: &'a GenericScope,
    pub time_zones: &'a TimeZoneRegistry,
    pub prelude: Option<&'a PreludeTypeScope>,
    pub unit_registry: Option<&'a UnitRegistry>,
    pub decl_bindings: Option<&'a Vec<DeclBinding>>,
}

/// The mathematical value of a context.
pub struct Ctx {
    pub owner: Seq<Seq<char>>,
    pub modules: Seq<ModuleSymbols>,
    pub generics: Seq<GenericBinding>,
    pub tzdb: Seq<char>,
    pub prelude: Option<PreludeTypeScope>,
    pub units: Option<Seq<UnitName>>,
    pub bindings: Seq<DeclBinding>,
}

impl<'a> View for ExprLoweringContext<'a> {
    type V = Ctx;

    open spec fn view(&self) -> Ctx {
        Ctx {
            owner: owner_of(*self.owner),
            modules: self.resolver.modules@,
            generics: self.generic_scope.params@,
            tzdb: self.time_zones.version_text(),
            prelude: match self.prelude {
                Some(prelude) => Some(*prelude),
                None => None,
            },
            units: match self.unit_registry {
                Some(registry) => Some(registry.units@),
                None => None,
            },
            bindings: match self.decl_bindings {
                Some(bindings) => bindings@,
                None => Seq::empty(),
            },
        }
    }
}

impl<'a> ExprLoweringContext<'a> {
    pub fn new(
        owner: &'a DagId,
        resolver: &'a ModuleResolver,
        generic_scope: &'a GenericScope,
        time_zones: &'a TimeZoneRegistry,
    ) -> (r: ExprLoweringContext<'a>)
        ensures
            r.owner == owner,
            r.resolver == resolver,
            r.generic_scope == generic_scope,
            r.time_zones == time_zones,
            r.prelude is None,
            r.unit_registry is None,
            r.decl_bindings is None,
    {
        ExprLoweringContext {
            owner,
            resolver,
            generic_scope,
            time_zones,
            prelude: None,
            unit_registry: None,
            decl_bindings: None,
        }
    }

    /// The same context with a prelude.
    pub fn with_prelude(self, prelude: &'a PreludeTypeScope) -> (r: ExprLoweringContext<'a>)
        ensures
            r == (ExprLoweringContext { prelude: Some(prelude), ..self }),
    {
        ExprLoweringContext {
            owner: self.owner,
            resolver: self.resolver,
            generic_scope: self.generic_scope,
            time_zones: self.time_zones,
            prelude: Some(prelude),
            unit_registry: self.unit_registry,
            decl_bindings: self.decl_bindings,
        }
    }

    /// The same context with a registry of units.
    pub fn with_unit_registry(self, unit_registry: &'a UnitRegistry) -> (r: ExprLoweringContext<'a>)
        ensures
            r == (ExprLoweringContext { unit_registry: Some(unit_registry), ..self }),
    {
        ExprLoweringContext {
            owner: self.owner,
            resolver: self.resolver,
            generic_scope: self.generic_scope,
            time_zones: self.time_zones,
            prelude: self.prelude,
            unit_registry: Some(unit_registry),
            decl_bindings: self.decl_bindings,
        }
    }

    /// The same context with names bound from outside.
    pub fn with_decl_bindings(self, decl_bindings: &'a Vec<DeclBinding>) -> (r: ExprLoweringContext<'a>)
        ensures
            r == (ExprLoweringContext { decl_bindings: Some(decl_bindings), ..self }),
    {
        ExprLoweringContext {
            owner: self.owner,
            resolver: self.resolver,
            generic_scope: self.generic_scope,
            time_zones: self.time_zones,
            prelude: self.prelude,
            unit_registry: self.unit_registry,
            decl_bindings: Some(decl_bindings),
        }
    }

    /// What a name is bound to from outside.
    pub(crate) fn bound_decl(&self, name: &ScopedName) -> (r: Option<&'a ResolvedDeclName>)
        ensures
            match r {
                Some(target) => bound_decl(self@.bindings, name.term(Spans::Kept), 0) == Some(*target),
                None => bound_decl(self@.bindings, name.term(Spans::Kept), 0) is None,
            },
    {
        let bindings = match self.decl_bindings {
            Some(bindings) => bindings,
            None => {
                return None;
            },
        };
        for i in 0..bindings.len()
            invariant
                bindings@ == self@.bindings,
                bound_decl(bindings@, name.term(Spans::Kept), 0) == bound_decl(
                    bindings@,
                    name.term(Spans::Kept),
                    i as int,
                ),
        {
            if same_scoped(&bindings[i].name, name) {
                return Some(&bindings[i].target);
            }
        }
        None
    }
}

/// Whether two scoped names are the same.
fn same_scoped(a: &ScopedName, b: &ScopedName) -> (r: bool)
    ensures
        r == (a.term(Spans::Kept) == b.term(Spans::Kept)),
{
    proof {
        lemma_scoped_term(*a);
        lemma_scoped_term(*b);
    }
    crate::syntax::format_equivalent::FormatEquivalent::format_equivalent(a, b)
}

/// A scoped name has no positions in it.
proof fn lemma_scoped_term(name: ScopedName)
    ensures
        name.term(Spans::Kept) == name.term(Spans::Dropped),
{
    assert(seq_terms(name.qualifier@, Spans::Kept) =~= seq_terms(name.qualifier@, Spans::Dropped));
}

} // verus!
