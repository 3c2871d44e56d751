//! What resolved references offer to messages and editors.

use crate::hir::lowering::unit_path;
use crate::hir::resolve::dotted_path;
use crate::hir::tree::{
    Expr, ExprKind, ExternFnRef, FunctionRef, IndexVariantRef, LocalId, ResolvedUnitName, ResolvedUnitRef,
    TypeSystemRef,
};
use crate::syntax::ast::{PluginPath, UnitRef};
use crate::syntax::names::{FnName, NameAtom};
use crate::syntax::span::{merged, Span};
use crate::syntax::text::joined;
use vstd::prelude::*;

verus! {

impl LocalId {
    /// The number of the local in its expression.
    pub fn index(self) -> (r: u32)
        ensures
            r == self.id,
    {
        self.id
    }
}

impl Expr {
    pub fn new(kind: ExprKind, span: Span) -> (r: Expr)
        ensures
            r.kind == kind,
            r.span == span,
    {
        Expr { kind, span }
    }
}

impl IndexVariantRef {
    /// Every place where the index is written, the first one first.
    pub open spec fn places(self) -> Seq<Span> {
        match self.index_span {
            Some(span) => seq![span] + self.additional_index_spans@,
            None => self.additional_index_spans@,
        }
    }

    /// Every place where the index is written.
    pub fn index_spans(&self) -> (r: Vec<Span>)
        ensures
            r@ == self.places(),
    {
        let mut spans: Vec<Span> = Vec::new();
        match self.index_span {
            Some(span) => spans.push(span),
            None => {},
        }
        let ghost start = spans@;
        assert(start =~= start + self.additional_index_spans@.take(0));
        for i in 0..self.additional_index_spans.len()
            invariant
                spans@ == start + self.additional_index_spans@.take(i as int),
        {
            spans.push(self.additional_index_spans[i]);
            assert(spans@ =~= start + self.additional_index_spans@.take(i as int + 1));
        }
        assert(self.additional_index_spans@.take(self.additional_index_spans@.len() as int)
            =~= self.additional_index_spans@);
        assert(spans@ =~= self.places());
        spans
    }

    /// The whole reference, from the index, where it is written, to the
    /// variant.
    pub fn path_span(&self) -> (r: Span)
        ensures
            r == match self.index_span {
                Some(index) => merged(index, self.variant_span),
                None => self.variant_span,
            },
    {
        match self.index_span {
            Some(index) => index.merge(self.variant_span),
            None => self.variant_span,
        }
    }
}

impl ResolvedUnitRef {
    pub fn new(spelling: UnitRef, resolved: ResolvedUnitName) -> (r: ResolvedUnitRef)
        ensures
            r.spelling == spelling,
            r.resolved == resolved,
    {
        ResolvedUnitRef { spelling, resolved }
    }

    /// The unit as it is written.
    pub fn spelling(&self) -> (r: &UnitRef)
        ensures
            *r == self.spelling,
    {
        &self.spelling
    }

    /// The unit that is meant.
    pub fn resolved(&self) -> (r: &ResolvedUnitName)
        ensures
            *r == self.resolved,
    {
        &self.resolved
    }

    /// The text of the unit as it is written.
    pub fn display(&self) -> (r: String)
        ensures
            r@ == dotted_path(unit_path(self.spelling)),
    {
        self.spelling.display_path()
    }
}

/// A name in back quotes, behind a word.
pub open spec fn quoted(word: Seq<char>, name: Seq<char>) -> Seq<char> {
    word + " `"@ + name + "`"@
}

fn quote(word: &str, name: &str) -> (r: String)
    ensures
        r@ == quoted(word@, name@),
{
    let opened = joined(word, " `");
    let named = joined(opened.as_str(), name);
    joined(named.as_str(), "`")
}

impl TypeSystemRef {
    /// What the reference is called in messages.
    pub open spec fn description(self) -> Seq<char> {
        match self {
            TypeSystemRef::Type(name) => quoted("type"@, name.name.atom.text@),
            TypeSystemRef::Dimension(name) => quoted("dimension"@, name.name.atom.text@),
            TypeSystemRef::Index(name) => quoted("index"@, name.name.atom.text@),
            TypeSystemRef::IndexVariant(variant) => quoted(
                "index label"@,
                variant.index.name.atom.text@ + "."@ + variant.variant.atom.text@,
            ),
        }
    }

    /// What the reference is called in messages.
    pub fn surface_description(&self) -> (r: String)
        ensures
            r@ == self.description(),
    {
        match self {
            TypeSystemRef::Type(name) => quote("type", name.name.as_str()),
            TypeSystemRef::Dimension(name) => quote("dimension", name.name.as_str()),
            TypeSystemRef::Index(name) => quote("index", name.name.as_str()),
            TypeSystemRef::IndexVariant(variant) => {
                let index = joined(variant.index.name.as_str(), ".");
                let label = joined(index.as_str(), variant.variant.as_str());
                quote("index label", label.as_str())
            },
        }
    }

    /// Why the reference is no value.
    pub fn value_position_error(&self) -> (r: String)
        ensures
            r@ == self.description() + " cannot be used as a value"@,
    {
        let description = self.surface_description();
        joined(description.as_str(), " cannot be used as a value")
    }
}

/// A function of a plugin.
#[derive(Debug, Clone, PartialEq, Eq, Hash)]
pub struct ExternFnKey {
    pub plugin: PluginPath,
    pub name: FnName,
}

impl ExternFnRef {
    /// The function that is meant, whatever the plugin is called here.
    pub fn key(&self) -> (r: ExternFnKey)
        ensures
            r.plugin.text@ == self.plugin.text@,
            r.name.atom.text@ == self.name.atom.text@,
    {
        ExternFnKey {
            plugin: PluginPath { text: self.plugin.text.clone() },
            name: FnName { atom: NameAtom { text: self.name.atom.text.clone() } },
        }
    }

    /// The function as it is written.
    pub fn display(&self) -> (r: String)
        ensures
            r@ == self.alias.atom.text@ + "."@ + self.name.atom.text@,
    {
        let alias = joined(self.alias.as_str(), ".");
        joined(alias.as_str(), self.name.as_str())
    }
}

impl FunctionRef {
    /// The function as it is written.
    pub open spec fn text(self) -> Seq<char> {
        match self {
            FunctionRef::Builtin(name) => name.text(),
            FunctionRef::Epoch { scale } => "epoch<"@ + scale.value.text() + ">"@,
            FunctionRef::External(target) => target.alias.atom.text@ + "."@ + target.name.atom.text@,
        }
    }

    /// The function as it is written.
    pub fn display(&self) -> (r: String)
        ensures
            r@ == self.text(),
    {
        match self {
            FunctionRef::Builtin(name) => name.as_str().to_owned(),
            FunctionRef::Epoch { scale } => {
                let opened = joined("epoch<", scale.value.as_str());
                joined(opened.as_str(), ">")
            },
            FunctionRef::External(target) => target.display(),
        }
    }
}

} // verus!
