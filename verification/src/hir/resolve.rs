//! Which declaration a written name denotes.
//!
//! A name is looked up in the module that it is written in: first among what
//! the module declares, then among what it imports by name. A qualified name
//! starts with an alias of an imported module and only reaches what that
//! module makes public.

use crate::hir::generics::constraints_of;
use crate::hir::tree::{
    DagId, ResolvedConstructorName, ResolvedDeclName, ResolvedDimName, ResolvedIndexName, ResolvedIndexVariant,
    ResolvedStructTypeName, ResolvedUnitName,
};
use crate::hir::visit::{owner_of, same_dag};
use crate::syntax::ast::{GenericConstraint, IdentPath, NamePath, PluginPath};
use crate::syntax::names::{
    ConstructorName, DeclName, DimName, FnName, GenericParamName, IndexName, IndexVariantName, NameAtom,
    StructTypeName, UnitName,
};
use crate::syntax::non_empty::NonEmpty;
use crate::syntax::parser::table_grammar::dotted;
use crate::syntax::term::{node1, node2, node3, seq_terms, DeepClone, Spans, Syntax, Tag, Term};
use vstd::prelude::*;

verus! {

/// The kinds of things that names stand for.
#[derive(Clone, Copy, Debug, PartialEq, Eq, Structural)]
pub enum Namespace {
    Decl,
    Index,
    Type,
    Constructor,
    Dim,
    Unit,
}

/// What a declared value is.
#[derive(Clone, Copy, Debug, PartialEq, Eq, Structural)]
pub enum DeclSymbolKind {
    Param,
    Node,
    Const,
}

/// A generic parameter of a constructor's type.
#[derive(Debug)]
pub struct GenericParamSymbol {
    pub name: GenericParamName,
    pub constraint: GenericConstraint,
}

/// A declared name.
#[derive(Debug)]
pub struct Symbol {
    pub namespace: Namespace,
    pub name: NameAtom,
    pub kind: DeclSymbolKind,
    pub is_pub: bool,
    pub generic_params: Vec<GenericParamSymbol>,
}

/// A variant of a named index.
#[derive(Debug)]
pub struct VariantSymbol {
    pub index: NameAtom,
    pub variant: NameAtom,
}

/// A module under another name.
#[derive(Debug)]
pub struct ModuleAlias {
    pub alias: NameAtom,
    pub target: DagId,
}

/// A name of another module under a name of this one.
#[derive(Debug)]
pub struct ImportedName {
    pub local: NameAtom,
    pub target: DagId,
    pub name: NameAtom,
}

/// A plugin and the functions that it offers.
#[derive(Debug)]
pub struct PluginAlias {
    pub alias: NameAtom,
    pub path: PluginPath,
    pub functions: Vec<FnName>,
}

/// What one module knows by name.
#[derive(Debug)]
pub struct ModuleSymbols {
    pub id: DagId,
    pub symbols: Vec<Symbol>,
    pub variants: Vec<VariantSymbol>,
    pub aliases: Vec<ModuleAlias>,
    pub imports: Vec<ImportedName>,
    pub plugins: Vec<PluginAlias>,
}

/// All modules.
#[derive(Debug)]
pub struct ModuleResolver {
    pub modules: Vec<ModuleSymbols>,
}

/// Why a name does not resolve.
#[derive(Debug)]
pub enum ModuleResolveError {
    UnknownModule { module: DagId },
    UnknownModuleAlias { owner: DagId, alias: String },
    UnknownName { owner: DagId, namespace: Namespace, name: String },
    PrivateName { owner: DagId, namespace: Namespace, name: String },
    UnknownIndexVariant { index: ResolvedIndexName, variant: IndexVariantName },
    AmbiguousIndexVariant { owner: DagId, variant: String },
    NotConst { name: ResolvedDeclName, found: Option<DeclSymbolKind> },
    DuplicateModule { module: DagId },
}

pub open spec fn namespace_term(namespace: Namespace) -> Term {
    Term::Int(
        match namespace {
            Namespace::Decl => 0,
            Namespace::Index => 1,
            Namespace::Type => 2,
            Namespace::Constructor => 3,
            Namespace::Dim => 4,
            Namespace::Unit => 5,
        },
    )
}

/// The term of a module's name.
pub open spec fn dag_term(owner: Seq<Seq<char>>) -> Term {
    node1(Tag::HirDagId, Term::List(Seq::new(owner.len(), |i: int| Term::Text(owner[i]))))
}

pub open spec fn unknown_module(module: Seq<Seq<char>>) -> Term {
    node1(Tag::UnknownModule, dag_term(module))
}

pub open spec fn unknown_alias(owner: Seq<Seq<char>>, alias: Seq<char>) -> Term {
    node2(Tag::UnknownModuleAlias, dag_term(owner), Term::Text(alias))
}

pub open spec fn unknown_name(owner: Seq<Seq<char>>, namespace: Namespace, name: Seq<char>) -> Term {
    node3(Tag::UnknownName, dag_term(owner), namespace_term(namespace), Term::Text(name))
}

pub open spec fn private_name(owner: Seq<Seq<char>>, namespace: Namespace, name: Seq<char>) -> Term {
    node3(Tag::PrivateName, dag_term(owner), namespace_term(namespace), Term::Text(name))
}

pub open spec fn not_const(name: Term, found: Option<DeclSymbolKind>) -> Term {
    node2(
        Tag::NotConst,
        name,
        match found {
            Some(DeclSymbolKind::Param) => Term::Int(0),
            Some(DeclSymbolKind::Node) => Term::Int(1),
            Some(DeclSymbolKind::Const) => Term::Int(2),
            None => Term::Absent,
        },
    )
}

impl ModuleResolveError {
    pub open spec fn to_term(self) -> Term {
        match self {
            ModuleResolveError::UnknownModule { module } => unknown_module(owner_of(module)),
            ModuleResolveError::UnknownModuleAlias { owner, alias } => unknown_alias(owner_of(owner), alias@),
            ModuleResolveError::UnknownName { owner, namespace, name } => unknown_name(
                owner_of(owner),
                namespace,
                name@,
            ),
            ModuleResolveError::PrivateName { owner, namespace, name } => private_name(
                owner_of(owner),
                namespace,
                name@,
            ),
            ModuleResolveError::UnknownIndexVariant { index, variant } => node2(
                Tag::UnknownIndexVariant,
                index.term(Spans::Kept),
                variant.term(Spans::Kept),
            ),
            ModuleResolveError::AmbiguousIndexVariant { owner, variant } => node2(
                Tag::AmbiguousIndexVariant,
                dag_term(owner_of(owner)),
                Term::Text(variant@),
            ),
            ModuleResolveError::NotConst { name, found } => not_const(name.term(Spans::Kept), found),
            ModuleResolveError::DuplicateModule { module } => node1(Tag::DuplicateModule, dag_term(owner_of(module))),
        }
    }
}

/// The term of a module's name is that of its segments.
pub proof fn lemma_dag_term(id: DagId)
    ensures
        id.term(Spans::Kept) == dag_term(owner_of(id)),
{
    assert(seq_terms(id.segments@, Spans::Kept) =~= Seq::new(
        owner_of(id).len(),
        |i: int| Term::Text(owner_of(id)[i]),
    ));
}

/// The names of a path.
pub open spec fn names_of(path: NamePath) -> Seq<Seq<char>> {
    Seq::new(path.segments@.len(), |i: int| path.segments@[i].text@)
}

/// The names of a path of identifiers.
pub open spec fn idents_of(path: IdentPath) -> Seq<Seq<char>> {
    Seq::new(path.segments@.len(), |i: int| path.segments@[i].name.text@)
}

/// A path with dots between its names.
pub open spec fn dotted_path(names: Seq<Seq<char>>) -> Seq<char> {
    dotted(Term::List(Seq::new(names.len(), |i: int| Term::Text(names[i]))))
}

/// The place of the first module with a name.
pub open spec fn module_at(modules: Seq<ModuleSymbols>, owner: Seq<Seq<char>>, i: int) -> Option<int>
    decreases modules.len() - i,
{
    if i < 0 || i >= modules.len() {
        None
    } else if owner_of(modules[i].id) == owner {
        Some(i)
    } else {
        module_at(modules, owner, i + 1)
    }
}

/// The place of the first symbol with a name in a namespace.
pub open spec fn symbol_at(symbols: Seq<Symbol>, namespace: Namespace, name: Seq<char>, i: int) -> Option<int>
    decreases symbols.len() - i,
{
    if i < 0 || i >= symbols.len() {
        None
    } else if symbols[i].namespace == namespace && symbols[i].name.text@ == name {
        Some(i)
    } else {
        symbol_at(symbols, namespace, name, i + 1)
    }
}

/// The module that an alias stands for.
pub open spec fn alias_target(aliases: Seq<ModuleAlias>, alias: Seq<char>, i: int) -> Option<Seq<Seq<char>>>
    decreases aliases.len() - i,
{
    if i < 0 || i >= aliases.len() {
        None
    } else if aliases[i].alias.text@ == alias {
        Some(owner_of(aliases[i].target))
    } else {
        alias_target(aliases, alias, i + 1)
    }
}

/// A canonical name: the module that owns it, and the name there.
pub struct Target {
    pub owner: Seq<Seq<char>>,
    pub name: Seq<char>,
}

/// What an imported name stands for in a namespace.
pub open spec fn imported(
    modules: Seq<ModuleSymbols>,
    imports: Seq<ImportedName>,
    namespace: Namespace,
    name: Seq<char>,
    i: int,
) -> Option<Target>
    decreases imports.len() - i,
{
    if i < 0 || i >= imports.len() {
        None
    } else {
        let target = owner_of(imports[i].target);
        let found = match module_at(modules, target, 0) {
            Some(m) => symbol_at(modules[m].symbols@, namespace, imports[i].name.text@, 0) is Some,
            None => false,
        };
        if imports[i].local.text@ == name && found {
            Some(Target { owner: target, name: imports[i].name.text@ })
        } else {
            imported(modules, imports, namespace, name, i + 1)
        }
    }
}

/// What a path denotes in a namespace, seen from a module.
#[verifier::opaque]
pub open spec fn resolution(
    modules: Seq<ModuleSymbols>,
    namespace: Namespace,
    owner: Seq<Seq<char>>,
    path: Seq<Seq<char>>,
) -> Result<Target, Term> {
    match module_at(modules, owner, 0) {
        None => Err(unknown_module(owner)),
        Some(m) => if path.len() <= 1 {
            if symbol_at(modules[m].symbols@, namespace, path.last(), 0) is Some {
                Ok(Target { owner, name: path.last() })
            } else {
                match imported(modules, modules[m].imports@, namespace, path.last(), 0) {
                    Some(target) => Ok(target),
                    None => Err(unknown_name(owner, namespace, dotted_path(path))),
                }
            }
        } else {
            match alias_target(modules[m].aliases@, path[0], 0) {
                None => Err(unknown_alias(owner, path[0])),
                Some(target) => {
                    let full = target + path.subrange(1, path.len() - 1);
                    match module_at(modules, full, 0) {
                        None => Err(unknown_module(full)),
                        Some(n) => match symbol_at(modules[n].symbols@, namespace, path.last(), 0) {
                            None => Err(unknown_name(full, namespace, dotted_path(path))),
                            Some(k) => if modules[n].symbols@[k].is_pub {
                                Ok(Target { owner: full, name: path.last() })
                            } else {
                                Err(private_name(full, namespace, dotted_path(path)))
                            },
                        },
                    }
                },
            }
        },
    }
}

/// The term of a canonical name.
pub open spec fn target_term(tag: Tag, target: Target) -> Term {
    node2(tag, dag_term(target.owner), Term::Text(target.name))
}

/// As `resolution`, with the term of the name.
#[verifier::opaque]
pub open spec fn resolved(
    modules: Seq<ModuleSymbols>,
    namespace: Namespace,
    tag: Tag,
    owner: Seq<Seq<char>>,
    path: Seq<Seq<char>>,
) -> Result<Term, Term> {
    match resolution(modules, namespace, owner, path) {
        Ok(target) => Ok(target_term(tag, target)),
        Err(error) => Err(error),
    }
}

/// What a resolving function returns, as terms.
pub open spec fn resolve_result<T: Syntax>(r: Result<T, ModuleResolveError>) -> Result<Term, Term> {
    match r {
        Ok(value) => Ok(value.term(Spans::Kept)),
        Err(error) => Err(error.to_term()),
    }
}

/// Whether a module lists a variant of an index.
pub open spec fn has_variant(variants: Seq<VariantSymbol>, index: Seq<char>, variant: Seq<char>) -> bool {
    exists|i: int|
        0 <= i < variants.len() && (#[trigger] variants[i]).index.text@ == index && variants[i].variant.text@
            == variant
}

pub open spec fn variant_term(index: Target, variant: Seq<char>) -> Term {
    node2(Tag::HirResolvedIndexVariant, target_term(Tag::HirResolvedIndexName, index), Term::Text(variant))
}

/// What an index and a variant denote.
#[verifier::opaque]
pub open spec fn variant_resolution(
    modules: Seq<ModuleSymbols>,
    owner: Seq<Seq<char>>,
    index: Seq<Seq<char>>,
    variant: Seq<char>,
) -> Result<Term, Term> {
    match resolution(modules, Namespace::Index, owner, index) {
        Err(error) => Err(error),
        Ok(target) => {
            let known = match module_at(modules, target.owner, 0) {
                Some(m) => has_variant(modules[m].variants@, target.name, variant),
                None => false,
            };
            if known {
                Ok(variant_term(target, variant))
            } else {
                Err(
                    node2(
                        Tag::UnknownIndexVariant,
                        target_term(Tag::HirResolvedIndexName, target),
                        Term::Text(variant),
                    ),
                )
            }
        },
    }
}

/// What a path whose last name is a variant denotes. The index is what stands
/// before it, or is inferred where nothing does.
#[verifier::opaque]
pub open spec fn variant_path_resolution(
    modules: Seq<ModuleSymbols>,
    owner: Seq<Seq<char>>,
    path: Seq<Seq<char>>,
) -> Result<Term, Term> {
    if path.len() == 1 {
        bare_variant_resolution(modules, owner, path[0])
    } else {
        variant_resolution(modules, owner, path.drop_last(), path.last())
    }
}

/// The indexes of a module, from the `i`th variant on, that have a variant of
/// this name.
pub open spec fn indexes_with(variants: Seq<VariantSymbol>, variant: Seq<char>, i: int) -> Seq<Seq<char>>
    decreases variants.len() - i,
{
    if i < 0 || i >= variants.len() {
        Seq::empty()
    } else if variants[i].variant.text@ == variant {
        seq![variants[i].index.text@] + indexes_with(variants, variant, i + 1)
    } else {
        indexes_with(variants, variant, i + 1)
    }
}

/// What a variant without its index denotes: it has to belong to exactly one
/// index of the module.
#[verifier::opaque]
pub open spec fn bare_variant_resolution(
    modules: Seq<ModuleSymbols>,
    owner: Seq<Seq<char>>,
    variant: Seq<char>,
) -> Result<Term, Term> {
    match module_at(modules, owner, 0) {
        None => Err(unknown_module(owner)),
        Some(m) => {
            let found = indexes_with(modules[m].variants@, variant, 0);
            if found.len() == 0 {
                Err(unknown_name(owner, Namespace::Index, variant))
            } else if found.len() == 1 {
                Ok(variant_term(Target { owner, name: found[0] }, variant))
            } else {
                Err(node2(Tag::AmbiguousIndexVariant, dag_term(owner), Term::Text(variant)))
            }
        },
    }
}

/// The module that a path denotes: its first name is an alias or a module
/// inside this one, the others lead further in.
#[verifier::opaque]
pub open spec fn module_resolution(
    modules: Seq<ModuleSymbols>,
    owner: Seq<Seq<char>>,
    path: Seq<Seq<char>>,
) -> Result<Seq<Seq<char>>, Term> {
    match module_at(modules, owner, 0) {
        None => Err(unknown_module(owner)),
        Some(m) => {
            let full = match alias_target(modules[m].aliases@, path[0], 0) {
                Some(target) => target + path.subrange(1, path.len() as int),
                None => owner + path,
            };
            if module_at(modules, full, 0) is Some {
                Ok(full)
            } else {
                Err(unknown_module(full))
            }
        },
    }
}

/// The kind of a declared value.
pub open spec fn decl_kind(modules: Seq<ModuleSymbols>, target: Target) -> Option<DeclSymbolKind> {
    match module_at(modules, target.owner, 0) {
        None => None,
        Some(m) => match symbol_at(modules[m].symbols@, Namespace::Decl, target.name, 0) {
            None => None,
            Some(k) => Some(modules[m].symbols@[k].kind),
        },
    }
}

/// The generic parameters of a type, or of the type of a constructor.
pub open spec fn generic_params_at(
    modules: Seq<ModuleSymbols>,
    namespace: Namespace,
    owner: Seq<Seq<char>>,
    name: Seq<char>,
) -> Seq<GenericParamSymbol> {
    match module_at(modules, owner, 0) {
        None => Seq::empty(),
        Some(m) => match symbol_at(modules[m].symbols@, namespace, name, 0) {
            None => Seq::empty(),
            Some(k) => modules[m].symbols@[k].generic_params@,
        },
    }
}

/// As `resolved` for declarations, refusing what is no constant.
#[verifier::opaque]
pub open spec fn const_resolution(
    modules: Seq<ModuleSymbols>,
    owner: Seq<Seq<char>>,
    path: Seq<Seq<char>>,
) -> Result<Term, Term> {
    match resolution(modules, Namespace::Decl, owner, path) {
        Err(error) => Err(error),
        Ok(target) => if decl_kind(modules, target) == Some(DeclSymbolKind::Const) {
            Ok(target_term(Tag::HirResolvedDeclName, target))
        } else {
            Err(not_const(target_term(Tag::HirResolvedDeclName, target), decl_kind(modules, target)))
        },
    }
}

impl DagId {
    /// The module of a file in a package.
    pub fn root_in_package(package: &str, name: &str) -> (r: DagId)
        ensures
            owner_of(r) == seq![package@, name@],
    {
        let mut segments: Vec<String> = Vec::new();
        segments.push(package.to_owned());
        segments.push(name.to_owned());
        let r = DagId { segments };
        assert(owner_of(r) =~= seq![package@, name@]);
        r
    }

    /// A module inside this one.
    pub fn child(&self, name: &NameAtom) -> (r: DagId)
        ensures
            owner_of(r) == owner_of(*self).push(name.text@),
    {
        let mut r = self.copy();
        let ghost before = owner_of(r);
        r.segments.push(name.text.clone());
        assert(owner_of(r) =~= before.push(name.text@));
        r
    }

    /// The same module.
    pub fn copy(&self) -> (r: DagId)
        ensures
            owner_of(r) == owner_of(*self),
            r.term(Spans::Kept) == self.term(Spans::Kept),
    {
        let mut segments: Vec<String> = Vec::new();
        for i in 0..self.segments.len()
            invariant
                segments@.len() == i,
                forall|j: int| 0 <= j < i ==> (#[trigger] segments@[j])@ == self.segments@[j]@,
        {
            segments.push(self.segments[i].clone());
        }
        let r = DagId { segments };
        proof {
            assert(owner_of(r) =~= owner_of(*self));
            lemma_dag_term(r);
            lemma_dag_term(*self);
        }
        r
    }
}

impl NamePath {
    /// A name without a qualifier.
    pub fn local(name: NameAtom) -> (r: NamePath)
        ensures
            names_of(r) == seq![name.text@],
    {
        let r = NamePath { segments: NonEmpty::singleton(name) };
        assert(names_of(r) =~= seq![name.text@]);
        r
    }
}

impl IdentPath {
    /// The same path without positions.
    pub fn to_name_path(&self) -> (r: NamePath)
        ensures
            names_of(r) == idents_of(*self),
    {
        let mut rest: Vec<NameAtom> = Vec::new();
        for i in 0..self.segments.rest.len()
            invariant
                rest@.len() == i,
                forall|j: int| 0 <= j < i ==> (#[trigger] rest@[j]).text@ == self.segments.rest@[j].name.text@,
        {
            rest.push(NameAtom { text: self.segments.rest[i].name.text.clone() });
        }
        let first = NameAtom { text: self.segments.first.name.text.clone() };
        let r = NamePath { segments: NonEmpty::new(first, rest) };
        assert(names_of(r) =~= idents_of(*self));
        r
    }

    /// The only name of the path, if there is only one.
    pub fn as_bare(&self) -> (r: Option<&crate::syntax::ast::Ident>)
        ensures
            r is Some == (idents_of(*self).len() == 1),
            r is Some ==> *r->0 == *self.segments.first,
    {
        if self.segments.rest.len() == 0 {
            Some(&*self.segments.first)
        } else {
            None
        }
    }

    pub fn display_path(&self) -> (r: String)
        ensures
            r@ == dotted_path(idents_of(*self)),
    {
        let path = self.to_name_path();
        proof {
            lemma_path_names(path);
        }
        path.display_path()
    }
}

/// The term of a path is the list of its names.
pub proof fn lemma_path_names(path: NamePath)
    ensures
        path.term(Spans::Kept) == Term::List(Seq::new(names_of(path).len(), |i: int| Term::Text(names_of(path)[i]))),
        dotted(path.term(Spans::Kept)) == dotted_path(names_of(path)),
{
    crate::syntax::parser::state::lemma_non_empty_term(path.segments, Spans::Kept);
    assert(seq_terms(path.segments@, Spans::Kept) =~= Seq::new(
        names_of(path).len(),
        |i: int| Term::Text(names_of(path)[i]),
    ));
}

/// An owner and a name, as lookups find them.
struct Found {
    owner: DagId,
    name: NameAtom,
}

spec fn target_of(found: Found) -> Target {
    Target { owner: owner_of(found.owner), name: found.name.text@ }
}

spec fn found_result(r: Result<Found, ModuleResolveError>) -> Result<Target, Term> {
    match r {
        Ok(found) => Ok(target_of(found)),
        Err(error) => Err(error.to_term()),
    }
}

impl ModuleResolver {
    pub fn new() -> (r: ModuleResolver)
        ensures
            r.modules@.len() == 0,
    {
        ModuleResolver { modules: Vec::new() }
    }

    /// The place of a module.
    pub fn find_module(&self, owner: &DagId) -> (r: Option<usize>)
        ensures
            match r {
                Some(m) => module_at(self.modules@, owner_of(*owner), 0) == Some(m as int) && m < self.modules@.len(),
                None => module_at(self.modules@, owner_of(*owner), 0) is None,
            },
    {
        for i in 0..self.modules.len()
            invariant
                module_at(self.modules@, owner_of(*owner), 0) == module_at(
                    self.modules@,
                    owner_of(*owner),
                    i as int,
                ),
        {
            if same_dag(&self.modules[i].id, owner) {
                return Some(i);
            }
        }
        None
    }

    fn find_symbol(symbols: &Vec<Symbol>, namespace: Namespace, name: &NameAtom) -> (r: Option<usize>)
        ensures
            match r {
                Some(k) => symbol_at(symbols@, namespace, name.text@, 0) == Some(k as int) && k < symbols@.len(),
                None => symbol_at(symbols@, namespace, name.text@, 0) is None,
            },
    {
        for i in 0..symbols.len()
            invariant
                symbol_at(symbols@, namespace, name.text@, 0) == symbol_at(
                    symbols@,
                    namespace,
                    name.text@,
                    i as int,
                ),
        {
            if symbols[i].namespace == namespace && symbols[i].name.same(name) {
                return Some(i);
            }
        }
        None
    }

    fn find_alias(aliases: &Vec<ModuleAlias>, alias: &NameAtom) -> (r: Option<DagId>)
        ensures
            match r {
                Some(target) => alias_target(aliases@, alias.text@, 0) == Some(owner_of(target)),
                None => alias_target(aliases@, alias.text@, 0) is None,
            },
    {
        for i in 0..aliases.len()
            invariant
                alias_target(aliases@, alias.text@, 0) == alias_target(aliases@, alias.text@, i as int),
        {
            if aliases[i].alias.same(alias) {
                return Some(aliases[i].target.copy());
            }
        }
        None
    }

    fn find_imported(&self, imports: &Vec<ImportedName>, namespace: Namespace, name: &NameAtom) -> (r: Option<Found>)
        ensures
            match r {
                Some(found) => imported(self.modules@, imports@, namespace, name.text@, 0) == Some(target_of(found)),
                None => imported(self.modules@, imports@, namespace, name.text@, 0) is None,
            },
    {
        for i in 0..imports.len()
            invariant
                imported(self.modules@, imports@, namespace, name.text@, 0) == imported(
                    self.modules@,
                    imports@,
                    namespace,
                    name.text@,
                    i as int,
                ),
        {
            let known = match self.find_module(&imports[i].target) {
                Some(m) => ModuleResolver::find_symbol(
                    &self.modules[m].symbols,
                    namespace,
                    &imports[i].name,
                ).is_some(),
                None => false,
            };
            if imports[i].local.same(name) && known {
                return Some(
                    Found {
                        owner: imports[i].target.copy(),
                        name: NameAtom { text: imports[i].name.text.clone() },
                    },
                );
            }
        }
        None
    }

    /// The module inside `owner` that the names of a path after its first lead
    /// to, up to the last or but for it.
    fn descend(owner: DagId, path: &NamePath, end: usize) -> (r: DagId)
        requires
            1 <= end <= path.segments@.len(),
        ensures
            owner_of(r) == owner_of(owner) + names_of(*path).subrange(1, end as int),
    {
        let ghost start = owner_of(owner);
        let mut r = owner;
        assert(start + names_of(*path).subrange(1, 1) =~= start);
        for i in 1..end
            invariant
                1 <= end <= path.segments@.len(),
                owner_of(r) == start + names_of(*path).subrange(1, i as int),
        {
            let next = r.child(path.segments.get(i));
            assert(owner_of(next) =~= start + names_of(*path).subrange(1, i as int + 1));
            r = next;
        }
        r
    }

    fn resolve(&self, namespace: Namespace, owner: &DagId, path: &NamePath) -> (r: Result<Found, ModuleResolveError>)
        ensures
            found_result(r) == resolution(self.modules@, namespace, owner_of(*owner), names_of(*path)),
    {
        reveal(resolution);
        let ghost names = names_of(*path);
        proof {
            lemma_path_names(*path);
        }
        let m = match self.find_module(owner) {
            Some(m) => m,
            None => return Err(ModuleResolveError::UnknownModule { module: owner.copy() }),
        };
        let leaf = path.segments.last();
        assert(leaf.text@ == names.last());
        if path.segments.rest.len() == 0 {
            if ModuleResolver::find_symbol(&self.modules[m].symbols, namespace, leaf).is_some() {
                return Ok(Found { owner: owner.copy(), name: NameAtom { text: leaf.text.clone() } });
            }
            return match self.find_imported(&self.modules[m].imports, namespace, leaf) {
                Some(found) => Ok(found),
                None => Err(
                    ModuleResolveError::UnknownName { owner: owner.copy(), namespace, name: path.display_path() },
                ),
            };
        }
        let first = &*path.segments.first;
        assert(first.text@ == names[0]);
        let target = match ModuleResolver::find_alias(&self.modules[m].aliases, first) {
            Some(target) => target,
            None => {
                return Err(
                    ModuleResolveError::UnknownModuleAlias { owner: owner.copy(), alias: first.text.clone() },
                );
            },
        };
        let full = ModuleResolver::descend(target, path, path.segments.rest.len());
        let n = match self.find_module(&full) {
            Some(n) => n,
            None => return Err(ModuleResolveError::UnknownModule { module: full }),
        };
        match ModuleResolver::find_symbol(&self.modules[n].symbols, namespace, leaf) {
            None => Err(ModuleResolveError::UnknownName { owner: full, namespace, name: path.display_path() }),
            Some(k) => if self.modules[n].symbols[k].is_pub {
                Ok(Found { owner: full, name: NameAtom { text: leaf.text.clone() } })
            } else {
                Err(ModuleResolveError::PrivateName { owner: full, namespace, name: path.display_path() })
            },
        }
    }

    pub fn resolve_decl_path(&self, owner: &DagId, path: &NamePath) -> (r: Result<ResolvedDeclName, ModuleResolveError>)
        ensures
            resolve_result(r) == resolved(
                self.modules@,
                Namespace::Decl,
                Tag::HirResolvedDeclName,
                owner_of(*owner),
                names_of(*path),
            ),
    {
        reveal(resolved);
        match self.resolve(Namespace::Decl, owner, path) {
            Ok(found) => {
                proof {
                    lemma_dag_term(found.owner);
                }
                Ok(ResolvedDeclName { owner: found.owner, name: DeclName { atom: found.name } })
            },
            Err(error) => Err(error),
        }
    }

    pub fn resolve_index_path(&self, owner: &DagId, path: &NamePath) -> (r: Result<ResolvedIndexName, ModuleResolveError>)
        ensures
            resolve_result(r) == resolved(
                self.modules@,
                Namespace::Index,
                Tag::HirResolvedIndexName,
                owner_of(*owner),
                names_of(*path),
            ),
    {
        reveal(resolved);
        match self.resolve(Namespace::Index, owner, path) {
            Ok(found) => {
                proof {
                    lemma_dag_term(found.owner);
                }
                Ok(ResolvedIndexName { owner: found.owner, name: IndexName { atom: found.name } })
            },
            Err(error) => Err(error),
        }
    }

    pub fn resolve_constructor_path(&self, owner: &DagId, path: &NamePath) -> (r: Result<ResolvedConstructorName, ModuleResolveError>)
        ensures
            resolve_result(r) == resolved(
                self.modules@,
                Namespace::Constructor,
                Tag::HirResolvedConstructorName,
                owner_of(*owner),
                names_of(*path),
            ),
    {
        reveal(resolved);
        match self.resolve(Namespace::Constructor, owner, path) {
            Ok(found) => {
                proof {
                    lemma_dag_term(found.owner);
                }
                Ok(ResolvedConstructorName { owner: found.owner, name: ConstructorName { atom: found.name } })
            },
            Err(error) => Err(error),
        }
    }

    /// What a constructor's name with positions denotes.
    pub fn resolve_constructor_ident_path(&self, owner: &DagId, path: &IdentPath) -> (r: Result<
        ResolvedConstructorName,
        ModuleResolveError,
    >)
        ensures
            match r {
                Ok(name) => resolution(
                    self.modules@,
                    Namespace::Constructor,
                    owner_of(*owner),
                    idents_of(*path),
                ) == Ok::<Target, Term>(Target { owner: owner_of(name.owner), name: name.name.atom.text@ }),
                Err(error) => resolution(
                    self.modules@,
                    Namespace::Constructor,
                    owner_of(*owner),
                    idents_of(*path),
                ) == Err::<Target, Term>(error.to_term()),
            },
    {
        reveal(resolution);
        match self.resolve(Namespace::Constructor, owner, &path.to_name_path()) {
            Ok(found) => Ok(
                ResolvedConstructorName { owner: found.owner, name: ConstructorName { atom: found.name } }
            ),
            Err(error) => Err(error),
        }
    }

    pub fn resolve_struct_type_ident_path(&self, owner: &DagId, path: &IdentPath) -> (r: Result<
        ResolvedStructTypeName,
        ModuleResolveError,
    >)
        ensures
            match r {
                Ok(name) => resolution(
                    self.modules@,
                    Namespace::Type,
                    owner_of(*owner),
                    idents_of(*path),
                ) == Ok::<Target, Term>(Target { owner: owner_of(name.owner), name: name.name.atom.text@ }),
                Err(error) => resolution(
                    self.modules@,
                    Namespace::Type,
                    owner_of(*owner),
                    idents_of(*path),
                ) == Err::<Target, Term>(error.to_term()),
            },
    {
        reveal(resolution);
        match self.resolve(Namespace::Type, owner, &path.to_name_path()) {
            Ok(found) => Ok(
                ResolvedStructTypeName { owner: found.owner, name: StructTypeName { atom: found.name } }
            ),
            Err(error) => Err(error),
        }
    }

    pub fn resolve_struct_type_path(&self, owner: &DagId, path: &NamePath) -> (r: Result<ResolvedStructTypeName, ModuleResolveError>)
        ensures
            resolve_result(r) == resolved(
                self.modules@,
                Namespace::Type,
                Tag::HirResolvedStructTypeName,
                owner_of(*owner),
                names_of(*path),
            ),
    {
        reveal(resolved);
        match self.resolve(Namespace::Type, owner, path) {
            Ok(found) => {
                proof {
                    lemma_dag_term(found.owner);
                }
                Ok(ResolvedStructTypeName { owner: found.owner, name: StructTypeName { atom: found.name } })
            },
            Err(error) => Err(error),
        }
    }

    pub fn resolve_dimension_path(&self, owner: &DagId, path: &NamePath) -> (r: Result<ResolvedDimName, ModuleResolveError>)
        ensures
            resolve_result(r) == resolved(
                self.modules@,
                Namespace::Dim,
                Tag::HirResolvedDimName,
                owner_of(*owner),
                names_of(*path),
            ),
    {
        reveal(resolved);
        match self.resolve(Namespace::Dim, owner, path) {
            Ok(found) => {
                proof {
                    lemma_dag_term(found.owner);
                }
                Ok(ResolvedDimName { owner: found.owner, name: DimName { atom: found.name } })
            },
            Err(error) => Err(error),
        }
    }

    pub fn resolve_unit_path(&self, owner: &DagId, path: &NamePath) -> (r: Result<ResolvedUnitName, ModuleResolveError>)
        ensures
            resolve_result(r) == resolved(
                self.modules@,
                Namespace::Unit,
                Tag::HirResolvedUnitName,
                owner_of(*owner),
                names_of(*path),
            ),
    {
        reveal(resolved);
        match self.resolve(Namespace::Unit, owner, path) {
            Ok(found) => {
                proof {
                    lemma_dag_term(found.owner);
                }
                Ok(ResolvedUnitName { owner: found.owner, name: UnitName { atom: found.name } })
            },
            Err(error) => Err(error),
        }
    }

    /// What an index and a variant denote.
    pub fn resolve_index_variant_parts(&self, owner: &DagId, index: &NamePath, variant: &IndexVariantName) -> (r:
        Result<ResolvedIndexVariant, ModuleResolveError>)
        ensures
            resolve_result(r) == variant_resolution(
                self.modules@,
                owner_of(*owner),
                names_of(*index),
                variant.atom.text@,
            ),
    {
        reveal(variant_resolution);
        let found = match self.resolve(Namespace::Index, owner, index) {
            Ok(found) => found,
            Err(error) => return Err(error),
        };
        let ghost target = target_of(found);
        let mut known: bool = false;
        match self.find_module(&found.owner) {
            Some(m) => {
                let variants = &self.modules[m].variants;
                for i in 0..variants.len()
                    invariant
                        variants@ == self.modules@[m as int].variants@,
                        known == exists|j: int|
                            0 <= j < i && (#[trigger] variants@[j]).index.text@ == found.name.text@
                                && variants@[j].variant.text@ == variant.atom.text@,
                {
                    if variants[i].index.same(&found.name) && variants[i].variant.same(&variant.atom) {
                        known = true;
                    }
                }
            },
            None => {},
        }
        proof {
            lemma_dag_term(found.owner);
        }
        let index = ResolvedIndexName { owner: found.owner, name: IndexName { atom: found.name } };
        let variant = IndexVariantName { atom: NameAtom { text: variant.atom.text.clone() } };
        if known {
            Ok(ResolvedIndexVariant { index, variant })
        } else {
            Err(ModuleResolveError::UnknownIndexVariant { index, variant })
        }
    }

    /// What a path whose last name is a variant denotes.
    pub fn resolve_index_variant_path(&self, owner: &DagId, path: &NamePath) -> (r: Result<
        ResolvedIndexVariant,
        ModuleResolveError,
    >)
        ensures
            resolve_result(r) == variant_path_resolution(self.modules@, owner_of(*owner), names_of(*path)),
    {
        reveal(variant_path_resolution);
        proof {
            lemma_path_names(*path);
        }
        let variant = IndexVariantName { atom: NameAtom { text: path.segments.last().text.clone() } };
        if path.segments.rest.len() == 0 {
            return self.resolve_bare_index_variant(owner, &variant);
        }
        let index = path.without_last();
        self.resolve_index_variant_parts(owner, &index, &variant)
    }

    /// What a variant without its index denotes.
    pub fn resolve_bare_index_variant(&self, owner: &DagId, variant: &IndexVariantName) -> (r: Result<
        ResolvedIndexVariant,
        ModuleResolveError,
    >)
        ensures
            resolve_result(r) == bare_variant_resolution(self.modules@, owner_of(*owner), variant.atom.text@),
    {
        reveal(bare_variant_resolution);
        let m = match self.find_module(owner) {
            Some(m) => m,
            None => return Err(ModuleResolveError::UnknownModule { module: owner.copy() }),
        };
        let variants = &self.modules[m].variants;
        let ghost all = indexes_with(variants@, variant.atom.text@, 0);
        let mut found: Vec<usize> = Vec::new();
        let ghost mut names: Seq<Seq<char>> = Seq::empty();
        assert(names + all =~= all);
        for i in 0..variants.len()
            invariant
                variants@ == self.modules@[m as int].variants@,
                all == indexes_with(variants@, variant.atom.text@, 0),
                names.len() == found@.len(),
                forall|j: int|
                    0 <= j < found@.len() ==> #[trigger] found@[j] < variants@.len() && names[j]
                        == variants@[found@[j] as int].index.text@,
                names + indexes_with(variants@, variant.atom.text@, i as int) == all,
        {
            if variants[i].variant.same(&variant.atom) {
                found.push(i);
                proof {
                    let more = names.push(variants@[i as int].index.text@);
                    assert(more + indexes_with(variants@, variant.atom.text@, i as int + 1) =~= names
                        + indexes_with(variants@, variant.atom.text@, i as int));
                    names = more;
                }
            }
        }
        assert(names =~= all);
        if found.len() == 0 {
            return Err(
                ModuleResolveError::UnknownName {
                    owner: owner.copy(),
                    namespace: Namespace::Index,
                    name: variant.atom.text.clone(),
                },
            );
        }
        if found.len() > 1 {
            return Err(
                ModuleResolveError::AmbiguousIndexVariant { owner: owner.copy(), variant: variant.atom.text.clone() },
            );
        }
        let index = ResolvedIndexName {
            owner: owner.copy(),
            name: IndexName { atom: NameAtom { text: variants[found[0]].index.text.clone() } },
        };
        proof {
            assert(names[0] == variants@[found@[0] as int].index.text@);
            lemma_dag_term(index.owner);
        }
        Ok(
            ResolvedIndexVariant {
                index,
                variant: IndexVariantName { atom: NameAtom { text: variant.atom.text.clone() } },
            }
        )
    }

    /// The module that a path denotes.
    pub fn resolve_module_path(&self, owner: &DagId, path: &NamePath) -> (r: Result<DagId, ModuleResolveError>)
        ensures
            match r {
                Ok(id) => module_resolution(self.modules@, owner_of(*owner), names_of(*path)) == Ok::<
                    Seq<Seq<char>>,
                    Term,
                >(owner_of(id)),
                Err(error) => module_resolution(self.modules@, owner_of(*owner), names_of(*path)) == Err::<
                    Seq<Seq<char>>,
                    Term,
                >(error.to_term()),
            },
    {
        reveal(module_resolution);
        let ghost names = names_of(*path);
        let m = match self.find_module(owner) {
            Some(m) => m,
            None => return Err(ModuleResolveError::UnknownModule { module: owner.copy() }),
        };
        let first = &*path.segments.first;
        assert(first.text@ == names[0]);
        let start = match ModuleResolver::find_alias(&self.modules[m].aliases, first) {
            Some(target) => target,
            None => owner.child(first),
        };
        let mut full = start;
        let ghost base = owner_of(full);
        for i in 0..path.segments.rest.len()
            invariant
                names == names_of(*path),
                owner_of(full) == base + names.subrange(1, i as int + 1),
        {
            let next = full.child(&path.segments.rest[i]);
            assert(owner_of(next) =~= base + names.subrange(1, i as int + 2));
            full = next;
        }
        assert(owner_of(*owner).push(names[0]) + names.subrange(1, names.len() as int) =~= owner_of(*owner) + names);
        if self.find_module(&full).is_some() {
            Ok(full)
        } else {
            Err(ModuleResolveError::UnknownModule { module: full })
        }
    }

    /// The kind of a declared value.
    pub fn decl_symbol_kind(&self, name: &ResolvedDeclName) -> (r: Option<DeclSymbolKind>)
        ensures
            r == decl_kind(
                self.modules@,
                Target { owner: owner_of(name.owner), name: name.name.atom.text@ },
            ),
    {
        match self.find_module(&name.owner) {
            None => None,
            Some(m) => match ModuleResolver::find_symbol(
                &self.modules[m].symbols,
                Namespace::Decl,
                &name.name.atom,
            ) {
                None => None,
                Some(k) => Some(self.modules[m].symbols[k].kind),
            },
        }
    }

    /// Whether a module declares a value of this name.
    pub fn has_decl(&self, owner: &DagId, name: &NameAtom) -> (r: bool)
        ensures
            r == match module_at(self.modules@, owner_of(*owner), 0) {
                Some(m) => symbol_at(self.modules@[m].symbols@, Namespace::Decl, name.text@, 0) is Some,
                None => false,
            },
    {
        match self.find_module(owner) {
            None => false,
            Some(m) => ModuleResolver::find_symbol(&self.modules[m].symbols, Namespace::Decl, name).is_some(),
        }
    }

    /// What the generic parameters of a type stand for, or those of the type of
    /// a constructor.
    pub fn generic_params(&self, namespace: Namespace, owner: &DagId, name: &NameAtom) -> (r: Vec<GenericConstraint>)
        ensures
            r@ == constraints_of(generic_params_at(self.modules@, namespace, owner_of(*owner), name.text@)),
    {
        let ghost all = constraints_of(generic_params_at(self.modules@, namespace, owner_of(*owner), name.text@));
        let mut constraints: Vec<GenericConstraint> = Vec::new();
        let m = match self.find_module(owner) {
            Some(m) => m,
            None => {
                assert(constraints@ =~= all);
                return constraints;
            },
        };
        let k = match ModuleResolver::find_symbol(&self.modules[m].symbols, namespace, name) {
            Some(k) => k,
            None => {
                assert(constraints@ =~= all);
                return constraints;
            },
        };
        let params = &self.modules[m].symbols[k].generic_params;
        for i in 0..params.len()
            invariant
                constraints@.len() == i,
                forall|j: int| 0 <= j < i ==> #[trigger] constraints@[j] == params@[j].constraint,
        {
            constraints.push(params[i].constraint);
        }
        assert(constraints@ =~= all);
        constraints
    }

    /// What a path denotes among the constants.
    pub fn resolve_const_decl_path(&self, owner: &DagId, path: &NamePath) -> (r: Result<
        ResolvedDeclName,
        ModuleResolveError,
    >)
        ensures
            resolve_result(r) == const_resolution(self.modules@, owner_of(*owner), names_of(*path)),
    {
        reveal(const_resolution);
        let found = match self.resolve(Namespace::Decl, owner, path) {
            Ok(found) => found,
            Err(error) => return Err(error),
        };
        proof {
            lemma_dag_term(found.owner);
        }
        let name = ResolvedDeclName { owner: found.owner, name: DeclName { atom: found.name } };
        match self.decl_symbol_kind(&name) {
            Some(DeclSymbolKind::Const) => Ok(name),
            found => Err(ModuleResolveError::NotConst { name, found }),
        }
    }

    /// The plugin that an alias stands for in a module.
    pub fn plugin_alias(&self, owner: &DagId, alias: &NameAtom) -> (r: Option<&PluginAlias>)
        ensures
            match r {
                Some(plugin) => plugin_at(self.modules@, owner_of(*owner), alias.text@) == Some(*plugin),
                None => plugin_at(self.modules@, owner_of(*owner), alias.text@) is None,
            },
    {
        reveal(plugin_at);
        match self.find_module(owner) {
            None => None,
            Some(m) => {
                let plugins = &self.modules[m].plugins;
                for i in 0..plugins.len()
                    invariant
                        plugins@ == self.modules@[m as int].plugins@,
                        module_at(self.modules@, owner_of(*owner), 0) == Some(m as int),
                        first_plugin(plugins@, alias.text@, 0) == first_plugin(plugins@, alias.text@, i as int),
                {
                    if plugins[i].alias.same(alias) {
                        reveal(plugin_at);
                        return Some(&plugins[i]);
                    }
                }
                None
            },
        }
    }
}

/// The first plugin with an alias.
pub open spec fn first_plugin(plugins: Seq<PluginAlias>, alias: Seq<char>, i: int) -> Option<PluginAlias>
    decreases plugins.len() - i,
{
    if i < 0 || i >= plugins.len() {
        None
    } else if plugins[i].alias.text@ == alias {
        Some(plugins[i])
    } else {
        first_plugin(plugins, alias, i + 1)
    }
}

/// The plugin that an alias stands for in a module.
#[verifier::opaque]
pub open spec fn plugin_at(
    modules: Seq<ModuleSymbols>,
    owner: Seq<Seq<char>>,
    alias: Seq<char>,
) -> Option<PluginAlias> {
    match module_at(modules, owner, 0) {
        None => None,
        Some(m) => first_plugin(modules[m].plugins@, alias, 0),
    }
}

impl NamePath {
    /// The path without its last name, where it has more than one.
    pub fn without_last(&self) -> (r: NamePath)
        requires
            self.segments@.len() > 1,
        ensures
            names_of(r) == names_of(*self).drop_last(),
    {
        let mut rest: Vec<NameAtom> = Vec::new();
        for i in 0..self.segments.rest.len() - 1
            invariant
                self.segments@.len() > 1,
                rest@.len() == i,
                forall|j: int| 0 <= j < i ==> (#[trigger] rest@[j]).text@ == self.segments.rest@[j].text@,
        {
            rest.push(NameAtom { text: self.segments.rest[i].text.clone() });
        }
        let first = NameAtom { text: self.segments.first.text.clone() };
        let r = NamePath { segments: NonEmpty::new(first, rest) };
        assert(names_of(r) =~= names_of(*self).drop_last());
        r
    }
}

} // verus!
