//! Which names the declarations of a module make known.

use crate::desugar::desugared_ast::{
    DeclKind, Declaration, ExternFnDecl, GenericParam, IndexDeclKind, TypeDecl, TypeDeclBody, UnionMember,
};
use crate::hir::resolve::{
    module_at, unknown_module, DeclSymbolKind, GenericParamSymbol, ImportedName, ModuleAlias, ModuleResolveError,
    ModuleResolver, ModuleSymbols, Namespace, PluginAlias, Symbol, VariantSymbol,
};
use crate::hir::tree::DagId;
use crate::hir::visit::owner_of;
use crate::syntax::ast::{
    BindableVisibility, GenericConstraint, ImportItem, ImportKind, ModulePath, PluginPath, Visibility,
};
use crate::syntax::names::{FnName, GenericParamName, IndexVariantName, NameAtom};
use crate::syntax::span::Spanned;
use vstd::prelude::*;

verus! {

/// A declared name.
pub struct SymbolView {
    pub namespace: Namespace,
    pub name: Seq<char>,
    pub kind: DeclSymbolKind,
    pub is_pub: bool,
    pub generic_params: Seq<(Seq<char>, GenericConstraint)>,
}

/// A plugin.
pub struct PluginView {
    pub alias: Seq<char>,
    pub path: Seq<char>,
    pub functions: Seq<Seq<char>>,
}

/// What one module knows by name.
pub struct ModuleView {
    pub id: Seq<Seq<char>>,
    pub symbols: Seq<SymbolView>,
    pub variants: Seq<(Seq<char>, Seq<char>)>,
    pub aliases: Seq<(Seq<char>, Seq<Seq<char>>)>,
    pub imports: Seq<(Seq<char>, Seq<Seq<char>>, Seq<char>)>,
    pub plugins: Seq<PluginView>,
}

pub open spec fn params_view(params: Seq<GenericParamSymbol>) -> Seq<(Seq<char>, GenericConstraint)> {
    params.map_values(|p: GenericParamSymbol| (p.name.atom.text@, p.constraint))
}

pub open spec fn symbol_view(symbol: Symbol) -> SymbolView {
    SymbolView {
        namespace: symbol.namespace,
        name: symbol.name.text@,
        kind: symbol.kind,
        is_pub: symbol.is_pub,
        generic_params: params_view(symbol.generic_params@),
    }
}

pub open spec fn symbols_view(symbols: Seq<Symbol>) -> Seq<SymbolView> {
    symbols.map_values(|s: Symbol| symbol_view(s))
}

pub open spec fn variants_view(variants: Seq<VariantSymbol>) -> Seq<(Seq<char>, Seq<char>)> {
    variants.map_values(|v: VariantSymbol| (v.index.text@, v.variant.text@))
}

pub open spec fn aliases_view(aliases: Seq<ModuleAlias>) -> Seq<(Seq<char>, Seq<Seq<char>>)> {
    aliases.map_values(|a: ModuleAlias| (a.alias.text@, owner_of(a.target)))
}

pub open spec fn imports_view(imports: Seq<ImportedName>) -> Seq<(Seq<char>, Seq<Seq<char>>, Seq<char>)> {
    imports.map_values(|i: ImportedName| (i.local.text@, owner_of(i.target), i.name.text@))
}

pub open spec fn functions_view(functions: Seq<FnName>) -> Seq<Seq<char>> {
    functions.map_values(|f: FnName| f.atom.text@)
}

pub open spec fn plugins_view(plugins: Seq<PluginAlias>) -> Seq<PluginView> {
    plugins.map_values(
        |p: PluginAlias|
            PluginView { alias: p.alias.text@, path: p.path.text@, functions: functions_view(p.functions@) },
    )
}

pub open spec fn module_view(module: ModuleSymbols) -> ModuleView {
    ModuleView {
        id: owner_of(module.id),
        symbols: symbols_view(module.symbols@),
        variants: variants_view(module.variants@),
        aliases: aliases_view(module.aliases@),
        imports: imports_view(module.imports@),
        plugins: plugins_view(module.plugins@),
    }
}

pub open spec fn modules_view(modules: Seq<ModuleSymbols>) -> Seq<ModuleView> {
    modules.map_values(|m: ModuleSymbols| module_view(m))
}

// What a declaration makes known.

pub open spec fn plain(namespace: Namespace, name: Seq<char>, kind: DeclSymbolKind, is_pub: bool) -> SymbolView {
    SymbolView { namespace, name, kind, is_pub, generic_params: Seq::empty() }
}

pub open spec fn type_params(params: Seq<GenericParam>) -> Seq<(Seq<char>, GenericConstraint)> {
    params.map_values(|p: GenericParam| (p.name.value.atom.text@, p.constraint))
}

pub open spec fn constructors(decl: TypeDecl) -> Seq<SymbolView> {
    match decl.body {
        TypeDeclBody::Required => Seq::empty(),
        TypeDeclBody::Constructors(members) => members@.map_values(
            |m: UnionMember|
                SymbolView {
                    namespace: Namespace::Constructor,
                    name: m.name.value.atom.text@,
                    kind: DeclSymbolKind::Node,
                    is_pub: decl.visibility != BindableVisibility::Private,
                    generic_params: type_params(decl.generic_params@),
                },
        ),
    }
}

/// The names that a declaration declares. A parameter is always public.
pub open spec fn declared_names(kind: DeclKind) -> Seq<SymbolView> {
    match kind {
        DeclKind::Param(d) => seq![plain(Namespace::Decl, d.name.value.atom.text@, DeclSymbolKind::Param, true)],
        DeclKind::Node(d) => seq![
            plain(Namespace::Decl, d.name.value.atom.text@, DeclSymbolKind::Node, d.visibility == Visibility::Public),
        ],
        DeclKind::ConstNode(d) => seq![
            plain(
                Namespace::Decl,
                d.name.value.atom.text@,
                DeclSymbolKind::Const,
                d.visibility == Visibility::Public,
            ),
        ],
        DeclKind::BaseDimension(d) => seq![
            plain(Namespace::Dim, d.name.value.atom.text@, DeclSymbolKind::Node, d.visibility == Visibility::Public),
        ],
        DeclKind::Dimension(d) => seq![
            plain(Namespace::Dim, d.name.value.atom.text@, DeclSymbolKind::Node, d.visibility == Visibility::Public),
        ],
        DeclKind::Unit(d) => seq![
            plain(Namespace::Unit, d.name.value.atom.text@, DeclSymbolKind::Node, d.visibility == Visibility::Public),
        ],
        DeclKind::Type(d) => seq![
            SymbolView {
                namespace: Namespace::Type,
                name: d.name.value.atom.text@,
                kind: DeclSymbolKind::Node,
                is_pub: d.visibility != BindableVisibility::Private,
                generic_params: type_params(d.generic_params@),
            },
        ] + constructors(d),
        DeclKind::Index(d) => seq![
            plain(
                Namespace::Index,
                d.name.value.atom.text@,
                DeclSymbolKind::Node,
                d.visibility != BindableVisibility::Private,
            ),
        ],
        _ => Seq::empty(),
    }
}

/// The variants that a declaration declares.
pub open spec fn declared_variants(kind: DeclKind) -> Seq<(Seq<char>, Seq<char>)> {
    match kind {
        DeclKind::Index(d) => match d.kind {
            IndexDeclKind::Named { variants } => variants@.map_values(
                |v: Spanned<IndexVariantName>| (d.name.value.atom.text@, v.value.atom.text@),
            ),
            _ => Seq::empty(),
        },
        _ => Seq::empty(),
    }
}

/// The plugin that a declaration imports.
pub open spec fn declared_plugins(kind: DeclKind) -> Seq<PluginView> {
    match kind {
        DeclKind::PluginImport(d) => seq![
            PluginView {
                alias: d.alias.value.atom.text@,
                path: d.path.value.text@,
                functions: d.functions@.map_values(|f: ExternFnDecl| f.name.value.atom.text@),
            },
        ],
        _ => Seq::empty(),
    }
}

pub open spec fn all_names(decls: Seq<Declaration>, n: nat) -> Seq<SymbolView>
    decreases n,
{
    if n == 0 || n > decls.len() {
        Seq::empty()
    } else {
        all_names(decls, (n - 1) as nat) + declared_names(decls[n - 1].kind)
    }
}

pub open spec fn all_variants(decls: Seq<Declaration>, n: nat) -> Seq<(Seq<char>, Seq<char>)>
    decreases n,
{
    if n == 0 || n > decls.len() {
        Seq::empty()
    } else {
        all_variants(decls, (n - 1) as nat) + declared_variants(decls[n - 1].kind)
    }
}

pub open spec fn all_plugins(decls: Seq<Declaration>, n: nat) -> Seq<PluginView>
    decreases n,
{
    if n == 0 || n > decls.len() {
        Seq::empty()
    } else {
        all_plugins(decls, (n - 1) as nat) + declared_plugins(decls[n - 1].kind)
    }
}

/// The module of a list of declarations.
pub open spec fn own_module(id: Seq<Seq<char>>, decls: Seq<Declaration>) -> ModuleView {
    ModuleView {
        id,
        symbols: all_names(decls, decls.len()),
        variants: all_variants(decls, decls.len()),
        aliases: Seq::empty(),
        imports: Seq::empty(),
        plugins: all_plugins(decls, decls.len()),
    }
}

/// The modules inside a list of declarations: one for each inline DAG, and
/// those inside that.
pub open spec fn inner_modules(id: Seq<Seq<char>>, decls: Vec<Declaration>, n: nat) -> Seq<ModuleView>
    decreases decls, n,
{
    if n == 0 || n > decls.len() {
        Seq::empty()
    } else {
        inner_modules(id, decls, (n - 1) as nat) + match decls[n - 1].kind {
            DeclKind::Dag(d) => seq![own_module(id.push(d.name.value.atom.text@), d.body@)] + inner_modules(
                id.push(d.name.value.atom.text@),
                d.body,
                d.body.len() as nat,
            ),
            _ => Seq::empty(),
        }
    }
}

fn copy_atom(name: &NameAtom) -> (r: NameAtom)
    ensures
        r.text@ == name.text@,
{
    NameAtom { text: name.text.clone() }
}

fn plain_symbol(namespace: Namespace, name: &NameAtom, kind: DeclSymbolKind, is_pub: bool) -> (r: Symbol)
    ensures
        symbol_view(r) == plain(namespace, name.text@, kind, is_pub),
{
    let r = Symbol { namespace, name: copy_atom(name), kind, is_pub, generic_params: Vec::new() };
    assert(params_view(r.generic_params@) =~= Seq::empty());
    r
}

fn copy_params(params: &Vec<GenericParam>) -> (r: Vec<GenericParamSymbol>)
    ensures
        params_view(r@) == type_params(params@),
{
    let mut out: Vec<GenericParamSymbol> = Vec::new();
    for i in 0..params.len()
        invariant
            out@.len() == i,
            forall|j: int|
                0 <= j < i ==> (#[trigger] out@[j]).name.atom.text@ == params@[j].name.value.atom.text@
                    && out@[j].constraint == params@[j].constraint,
    {
        out.push(
            GenericParamSymbol {
                name: GenericParamName { atom: copy_atom(&params[i].name.value.atom) },
                constraint: params[i].constraint,
            },
        );
    }
    assert(params_view(out@) =~= type_params(params@));
    out
}

fn push_symbol(out: &mut Vec<Symbol>, symbol: Symbol)
    ensures
        symbols_view(final(out)@) == symbols_view(old(out)@) + seq![symbol_view(symbol)],
{
    let ghost before = out@;
    out.push(symbol);
    assert(symbols_view(out@) =~= symbols_view(before) + seq![symbol_view(symbol)]);
}

fn push_constructors(decl: &TypeDecl, out: &mut Vec<Symbol>)
    ensures
        symbols_view(final(out)@) == symbols_view(old(out)@) + constructors(*decl),
{
    let ghost start = symbols_view(out@);
    let is_pub = decl.visibility != BindableVisibility::Private;
    match &decl.body {
        TypeDeclBody::Required => {
            assert(start =~= start + constructors(*decl));
        },
        TypeDeclBody::Constructors(members) => {
            let ghost all = constructors(*decl);
            assert(start =~= start + all.take(0));
            for i in 0..members.len()
                invariant
                    decl.body == TypeDeclBody::Constructors(*members),
                    is_pub == (decl.visibility != BindableVisibility::Private),
                    all == constructors(*decl),
                    all.len() == members@.len(),
                    symbols_view(out@) == start + all.take(i as int),
            {
                let symbol = Symbol {
                    namespace: Namespace::Constructor,
                    name: copy_atom(&members[i].name.value.atom),
                    kind: DeclSymbolKind::Node,
                    is_pub,
                    generic_params: copy_params(&decl.generic_params),
                };
                push_symbol(out, symbol);
                assert(symbol_view(symbol) == all[i as int]);
                assert(start + all.take(i as int) + seq![all[i as int]] =~= start + all.take(i as int + 1));
            }
            assert(all.take(all.len() as int) =~= all);
        },
    }
}

fn push_names(kind: &DeclKind, out: &mut Vec<Symbol>)
    ensures
        symbols_view(final(out)@) == symbols_view(old(out)@) + declared_names(*kind),
{
    let ghost start = symbols_view(out@);
    match kind {
        DeclKind::Param(d) => push_symbol(
            out,
            plain_symbol(Namespace::Decl, &d.name.value.atom, DeclSymbolKind::Param, true),
        ),
        DeclKind::Node(d) => push_symbol(
            out,
            plain_symbol(
                Namespace::Decl,
                &d.name.value.atom,
                DeclSymbolKind::Node,
                d.visibility == Visibility::Public,
            ),
        ),
        DeclKind::ConstNode(d) => push_symbol(
            out,
            plain_symbol(
                Namespace::Decl,
                &d.name.value.atom,
                DeclSymbolKind::Const,
                d.visibility == Visibility::Public,
            ),
        ),
        DeclKind::BaseDimension(d) => push_symbol(
            out,
            plain_symbol(
                Namespace::Dim,
                &d.name.value.atom,
                DeclSymbolKind::Node,
                d.visibility == Visibility::Public,
            ),
        ),
        DeclKind::Dimension(d) => push_symbol(
            out,
            plain_symbol(
                Namespace::Dim,
                &d.name.value.atom,
                DeclSymbolKind::Node,
                d.visibility == Visibility::Public,
            ),
        ),
        DeclKind::Unit(d) => push_symbol(
            out,
            plain_symbol(
                Namespace::Unit,
                &d.name.value.atom,
                DeclSymbolKind::Node,
                d.visibility == Visibility::Public,
            ),
        ),
        DeclKind::Type(d) => {
            let symbol = Symbol {
                namespace: Namespace::Type,
                name: copy_atom(&d.name.value.atom),
                kind: DeclSymbolKind::Node,
                is_pub: d.visibility != BindableVisibility::Private,
                generic_params: copy_params(&d.generic_params),
            };
            push_symbol(out, symbol);
            push_constructors(d, out);
            assert(start + seq![symbol_view(symbol)] + constructors(*d) =~= start + declared_names(*kind));
        },
        DeclKind::Index(d) => push_symbol(
            out,
            plain_symbol(
                Namespace::Index,
                &d.name.value.atom,
                DeclSymbolKind::Node,
                d.visibility != BindableVisibility::Private,
            ),
        ),
        _ => {
            assert(start =~= start + declared_names(*kind));
        },
    }
}

fn push_variants(kind: &DeclKind, out: &mut Vec<VariantSymbol>)
    ensures
        variants_view(final(out)@) == variants_view(old(out)@) + declared_variants(*kind),
{
    let ghost start = variants_view(out@);
    let ghost all = declared_variants(*kind);
    match kind {
        DeclKind::Index(d) => match &d.kind {
            IndexDeclKind::Named { variants } => {
                assert(start =~= start + all.take(0));
                for i in 0..variants.len()
                    invariant
                        all.len() == variants@.len(),
                        forall|j: int|
                            0 <= j < all.len() ==> #[trigger] all[j] == (
                                d.name.value.atom.text@,
                                variants@[j].value.atom.text@,
                            ),
                        variants_view(out@) == start + all.take(i as int),
                {
                    let ghost before = out@;
                    let variant = VariantSymbol {
                        index: copy_atom(&d.name.value.atom),
                        variant: copy_atom(&variants[i].value.atom),
                    };
                    out.push(variant);
                    assert(variants_view(out@) =~= variants_view(before).push(all[i as int]));
                    assert((start + all.take(i as int)).push(all[i as int]) =~= start + all.take(i as int + 1));
                }
                assert(all.take(all.len() as int) =~= all);
            },
            _ => {
                assert(start =~= start + all);
            },
        },
        _ => {
            assert(start =~= start + all);
        },
    }
}

fn function_names(functions: &Vec<ExternFnDecl>) -> (r: Vec<FnName>)
    ensures
        functions_view(r@) == functions@.map_values(|f: ExternFnDecl| f.name.value.atom.text@),
{
    let mut out: Vec<FnName> = Vec::new();
    for i in 0..functions.len()
        invariant
            out@.len() == i,
            forall|j: int| 0 <= j < i ==> (#[trigger] out@[j]).atom.text@ == functions@[j].name.value.atom.text@,
    {
        out.push(FnName { atom: copy_atom(&functions[i].name.value.atom) });
    }
    assert(functions_view(out@) =~= functions@.map_values(|f: ExternFnDecl| f.name.value.atom.text@));
    out
}

fn push_plugins(kind: &DeclKind, out: &mut Vec<PluginAlias>)
    ensures
        plugins_view(final(out)@) == plugins_view(old(out)@) + declared_plugins(*kind),
{
    let ghost start = out@;
    match kind {
        DeclKind::PluginImport(d) => {
            out.push(
                PluginAlias {
                    alias: copy_atom(&d.alias.value.atom),
                    path: PluginPath { text: d.path.value.text.clone() },
                    functions: function_names(&d.functions),
                },
            );
            assert(plugins_view(out@) =~= plugins_view(start) + declared_plugins(*kind));
        },
        _ => {
            assert(plugins_view(start) =~= plugins_view(start) + declared_plugins(*kind));
        },
    }
}

/// The module of a list of declarations.
fn module_of(id: DagId, decls: &Vec<Declaration>) -> (r: ModuleSymbols)
    ensures
        module_view(r) == own_module(owner_of(id), decls@),
{
    let mut symbols: Vec<Symbol> = Vec::new();
    let mut variants: Vec<VariantSymbol> = Vec::new();
    let mut plugins: Vec<PluginAlias> = Vec::new();
    assert(symbols_view(symbols@) =~= Seq::empty());
    assert(variants_view(variants@) =~= Seq::empty());
    assert(plugins_view(plugins@) =~= Seq::empty());
    for i in 0..decls.len()
        invariant
            symbols_view(symbols@) == all_names(decls@, i as nat),
            variants_view(variants@) == all_variants(decls@, i as nat),
            plugins_view(plugins@) == all_plugins(decls@, i as nat),
    {
        push_names(&decls[i].kind, &mut symbols);
        push_variants(&decls[i].kind, &mut variants);
        push_plugins(&decls[i].kind, &mut plugins);
    }
    let r = ModuleSymbols { id, symbols, variants, aliases: Vec::new(), imports: Vec::new(), plugins };
    assert(aliases_view(r.aliases@) =~= Seq::empty());
    assert(imports_view(r.imports@) =~= Seq::empty());
    r
}

fn push_module(out: &mut Vec<ModuleSymbols>, module: ModuleSymbols)
    ensures
        modules_view(final(out)@) == modules_view(old(out)@) + seq![module_view(module)],
{
    let ghost before = out@;
    out.push(module);
    assert(modules_view(out@) =~= modules_view(before) + seq![module_view(module)]);
}

proof fn lemma_append(a: Seq<ModuleView>, b: Seq<ModuleView>, c: Seq<ModuleView>)
    ensures
        a + b + c == a + (b + c),
{
    assert(a + b + c =~= a + (b + c));
}

/// The modules inside a list of declarations.
fn push_inner_modules(id: &DagId, decls: &Vec<Declaration>, out: &mut Vec<ModuleSymbols>)
    ensures
        modules_view(final(out)@) == modules_view(old(out)@) + inner_modules(
            owner_of(*id),
            *decls,
            decls.len() as nat,
        ),
    decreases decls,
{
    let ghost start = modules_view(out@);
    assert(start =~= start + Seq::empty());
    for i in 0..decls.len()
        invariant
            modules_view(out@) == start + inner_modules(owner_of(*id), *decls, i as nat),
    {
        let ghost before = inner_modules(owner_of(*id), *decls, i as nat);
        match &decls[i].kind {
            DeclKind::Dag(d) => {
                let child = id.child(&d.name.value.atom);
                let module = module_of(child.copy(), &d.body);
                push_module(out, module);
                push_inner_modules(&child, &d.body, out);
                proof {
                    let inner = inner_modules(owner_of(child), d.body, d.body.len() as nat);
                    lemma_append(start, before, seq![module_view(module)]);
                    lemma_append(start, before + seq![module_view(module)], inner);
                    lemma_append(before, seq![module_view(module)], inner);
                }
            },
            _ => {
                assert(before =~= before + Seq::empty());
            },
        }
    }
}

impl ModuleResolver {
    /// No module yet.
    pub fn default() -> (r: ModuleResolver)
        ensures
            r.modules@.len() == 0,
    {
        ModuleResolver { modules: Vec::new() }
    }

    /// Makes the declarations of a module known, and those of the inline DAGs
    /// in it.
    pub fn add_module(&mut self, id: DagId, declarations: &Vec<Declaration>) -> (r: Result<(), ModuleResolveError>)
        ensures
            match r {
                Ok(_) => module_at(old(self).modules@, owner_of(id), 0) is None && modules_view(final(self).modules@)
                    == modules_view(old(self).modules@) + (seq![own_module(owner_of(id), declarations@)]
                    + inner_modules(owner_of(id), *declarations, declarations.len() as nat)),
                Err(ModuleResolveError::DuplicateModule { module }) => module_at(
                    old(self).modules@,
                    owner_of(id),
                    0,
                ) is Some && owner_of(module) == owner_of(id) && *final(self) == *old(self),
                Err(_) => false,
            },
    {
        if self.find_module(&id).is_some() {
            return Err(ModuleResolveError::DuplicateModule { module: id });
        }
        let ghost start = modules_view(self.modules@);
        let module = module_of(id.copy(), declarations);
        push_module(&mut self.modules, module);
        push_inner_modules(&id, declarations, &mut self.modules);
        proof {
            lemma_append(
                start,
                seq![module_view(module)],
                inner_modules(owner_of(id), *declarations, declarations.len() as nat),
            );
        }
        Ok(())
    }
}

/// The names that an import makes known.
pub open spec fn imported_names(items: Seq<ImportItem>, target: Seq<Seq<char>>) -> Seq<
    (Seq<char>, Seq<Seq<char>>, Seq<char>),
> {
    items.map_values(
        |item: ImportItem|
            (
                match item.alias {
                    Some(alias) => alias.name.text@,
                    None => item.name.name.text@,
                },
                target,
                item.name.name.text@,
            ),
    )
}

/// What an import adds to a module: an alias, or names.
pub open spec fn with_import(
    module: ModuleView,
    path: ModulePath,
    kind: ImportKind,
    target: Seq<Seq<char>>,
) -> ModuleView {
    match kind {
        ImportKind::Selective(items) => ModuleView {
            imports: module.imports + imported_names(items@, target),
            ..module
        },
        ImportKind::Module { alias } => ModuleView {
            aliases: module.aliases.push(
                (
                    match alias {
                        Some(alias) => alias.value.atom.text@,
                        None => path.segments@.last().name.text@,
                    },
                    target,
                ),
            ),
            ..module
        },
    }
}

fn copy_imports(items: &Vec<ImportItem>, target: &DagId, out: &mut Vec<ImportedName>)
    ensures
        imports_view(final(out)@) == imports_view(old(out)@) + imported_names(items@, owner_of(*target)),
{
    let ghost start = imports_view(out@);
    let ghost all = imported_names(items@, owner_of(*target));
    assert(start =~= start + all.take(0));
    for i in 0..items.len()
        invariant
            all == imported_names(items@, owner_of(*target)),
            imports_view(out@) == start + all.take(i as int),
    {
        let ghost before = out@;
        let local = match &items[i].alias {
            Some(alias) => copy_atom(&alias.name),
            None => copy_atom(&items[i].name.name),
        };
        out.push(ImportedName { local, target: target.copy(), name: copy_atom(&items[i].name.name) });
        assert(imports_view(out@) =~= imports_view(before).push(all[i as int]));
        assert((start + all.take(i as int)).push(all[i as int]) =~= start + all.take(i as int + 1));
    }
    assert(all.take(all.len() as int) =~= all);
}

impl ModuleResolver {
    /// Makes an import of a module known: the module under its alias, or some
    /// of its names.
    pub fn register_import(&mut self, importer: &DagId, path: &ModulePath, kind: &ImportKind, target: &DagId) -> (r:
        Result<(), ModuleResolveError>)
        ensures
            match r {
                Ok(_) => {
                    &&& module_at(old(self).modules@, owner_of(*importer), 0) is Some
                    &&& module_at(old(self).modules@, owner_of(*target), 0) is Some
                    &&& modules_view(final(self).modules@) == modules_view(old(self).modules@).update(
                        module_at(old(self).modules@, owner_of(*importer), 0)->0,
                        with_import(
                            modules_view(old(self).modules@)[module_at(
                                old(self).modules@,
                                owner_of(*importer),
                                0,
                            )->0],
                            *path,
                            *kind,
                            owner_of(*target),
                        ),
                    )
                },
                Err(error) => *final(self) == *old(self) && if module_at(
                    old(self).modules@,
                    owner_of(*importer),
                    0,
                ) is None {
                    error.to_term() == unknown_module(owner_of(*importer))
                } else {
                    module_at(old(self).modules@, owner_of(*target), 0) is None && error.to_term() == unknown_module(
                        owner_of(*target),
                    )
                },
            },
    {
        let m = match self.find_module(importer) {
            Some(m) => m,
            None => return Err(ModuleResolveError::UnknownModule { module: importer.copy() }),
        };
        if self.find_module(target).is_none() {
            return Err(ModuleResolveError::UnknownModule { module: target.copy() });
        }
        let ghost before = self.modules@;
        let mut module = self.modules.remove(m);
        let ghost known = module_view(module);
        match kind {
            ImportKind::Selective(items) => {
                copy_imports(items, target, &mut module.imports);
            },
            ImportKind::Module { alias } => {
                let alias = match alias {
                    Some(alias) => copy_atom(&alias.value.atom),
                    None => copy_atom(&path.segments.last().name),
                };
                let ghost aliases = module.aliases@;
                module.aliases.push(ModuleAlias { alias, target: target.copy() });
                assert(
                    aliases_view(module.aliases@) =~= aliases_view(aliases).push((alias.text@, owner_of(*target)))
                );
            },
        }
        assert(module_view(module) == with_import(known, *path, *kind, owner_of(*target)));
        self.modules.insert(m, module);
        assert(modules_view(self.modules@) =~= modules_view(before).update(m as int, module_view(module)));
        Ok(())
    }
}

} // verus!
