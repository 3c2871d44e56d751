//! Identifiers and the names built from them.

use crate::syntax::format_equivalent::FormatEquivalent;
use crate::syntax::term::{DeepClone, Spans, Syntax, Term};
use vstd::prelude::*;

verus! {

/// A single identifier as it stands in source text.
#[derive(Debug, Clone, PartialEq, Eq, Hash)]
pub struct NameAtom {
    pub text: String,
}

impl NameAtom {
    pub fn new(text: String) -> (r: NameAtom)
        ensures
            r.text == text,
    {
        NameAtom { text }
    }

    pub fn as_str(&self) -> (r: &str)
        ensures
            r@ == self.text@,
    {
        self.text.as_str()
    }

    /// Whether both atoms spell the same identifier.
    pub fn same(&self, other: &NameAtom) -> (r: bool)
        ensures
            r == (self.text@ == other.text@),
    {
        self.text == other.text
    }
}

impl Syntax for NameAtom {
    open spec fn term(&self, s: Spans) -> Term {
        Term::Text(self.text@)
    }
}

impl FormatEquivalent for NameAtom {
    fn format_equivalent(&self, other: &Self) -> (r: bool) {
        self.text == other.text
    }
}

impl DeepClone for NameAtom {
    fn deep_clone(&self) -> (r: Self) {
        NameAtom { text: self.text.clone() }
    }
}

/// Name of a declared value: a param, a node, a constant or a DAG.
#[derive(Debug, Clone, PartialEq, Eq, Hash)]
pub struct DeclName {
    pub atom: NameAtom,
}

impl DeclName {
    pub fn from_atom(atom: NameAtom) -> (r: DeclName)
        ensures
            r.atom == atom,
    {
        DeclName { atom }
    }

    pub fn as_str(&self) -> (r: &str)
        ensures
            r@ == self.atom.text@,
    {
        self.atom.as_str()
    }
}

impl Syntax for DeclName {
    open spec fn term(&self, s: Spans) -> Term {
        Term::Text(self.atom.text@)
    }
}

impl FormatEquivalent for DeclName {
    fn format_equivalent(&self, other: &Self) -> (r: bool) {
        self.atom.format_equivalent(&other.atom)
    }
}

impl DeepClone for DeclName {
    fn deep_clone(&self) -> (r: Self) {
        DeclName { atom: self.atom.deep_clone() }
    }
}

/// Name of a dimension.
#[derive(Debug, Clone, PartialEq, Eq, Hash)]
pub struct DimName {
    pub atom: NameAtom,
}

impl DimName {
    pub fn from_atom(atom: NameAtom) -> (r: DimName)
        ensures
            r.atom == atom,
    {
        DimName { atom }
    }

    pub fn as_str(&self) -> (r: &str)
        ensures
            r@ == self.atom.text@,
    {
        self.atom.as_str()
    }
}

impl Syntax for DimName {
    open spec fn term(&self, s: Spans) -> Term {
        Term::Text(self.atom.text@)
    }
}

impl FormatEquivalent for DimName {
    fn format_equivalent(&self, other: &Self) -> (r: bool) {
        self.atom.format_equivalent(&other.atom)
    }
}

impl DeepClone for DimName {
    fn deep_clone(&self) -> (r: Self) {
        DimName { atom: self.atom.deep_clone() }
    }
}

/// Name of a unit.
#[derive(Debug, Clone, PartialEq, Eq, Hash)]
pub struct UnitName {
    pub atom: NameAtom,
}

impl UnitName {
    pub fn from_atom(atom: NameAtom) -> (r: UnitName)
        ensures
            r.atom == atom,
    {
        UnitName { atom }
    }

    pub fn as_str(&self) -> (r: &str)
        ensures
            r@ == self.atom.text@,
    {
        self.atom.as_str()
    }
}

impl Syntax for UnitName {
    open spec fn term(&self, s: Spans) -> Term {
        Term::Text(self.atom.text@)
    }
}

impl FormatEquivalent for UnitName {
    fn format_equivalent(&self, other: &Self) -> (r: bool) {
        self.atom.format_equivalent(&other.atom)
    }
}

impl DeepClone for UnitName {
    fn deep_clone(&self) -> (r: Self) {
        UnitName { atom: self.atom.deep_clone() }
    }
}

/// Name of an index.
#[derive(Debug, Clone, PartialEq, Eq, Hash)]
pub struct IndexName {
    pub atom: NameAtom,
}

impl IndexName {
    pub fn from_atom(atom: NameAtom) -> (r: IndexName)
        ensures
            r.atom == atom,
    {
        IndexName { atom }
    }

    pub fn as_str(&self) -> (r: &str)
        ensures
            r@ == self.atom.text@,
    {
        self.atom.as_str()
    }
}

impl Syntax for IndexName {
    open spec fn term(&self, s: Spans) -> Term {
        Term::Text(self.atom.text@)
    }
}

impl FormatEquivalent for IndexName {
    fn format_equivalent(&self, other: &Self) -> (r: bool) {
        self.atom.format_equivalent(&other.atom)
    }
}

impl DeepClone for IndexName {
    fn deep_clone(&self) -> (r: Self) {
        IndexName { atom: self.atom.deep_clone() }
    }
}

/// Name of one variant of a named index.
#[derive(Debug, Clone, PartialEq, Eq, Hash)]
pub struct IndexVariantName {
    pub atom: NameAtom,
}

impl IndexVariantName {
    pub fn from_atom(atom: NameAtom) -> (r: IndexVariantName)
        ensures
            r.atom == atom,
    {
        IndexVariantName { atom }
    }

    pub fn as_str(&self) -> (r: &str)
        ensures
            r@ == self.atom.text@,
    {
        self.atom.as_str()
    }
}

impl Syntax for IndexVariantName {
    open spec fn term(&self, s: Spans) -> Term {
        Term::Text(self.atom.text@)
    }
}

impl FormatEquivalent for IndexVariantName {
    fn format_equivalent(&self, other: &Self) -> (r: bool) {
        self.atom.format_equivalent(&other.atom)
    }
}

impl DeepClone for IndexVariantName {
    fn deep_clone(&self) -> (r: Self) {
        IndexVariantName { atom: self.atom.deep_clone() }
    }
}

/// Name of a record field.
#[derive(Debug, Clone, PartialEq, Eq, Hash)]
pub struct FieldName {
    pub atom: NameAtom,
}

impl FieldName {
    pub fn from_atom(atom: NameAtom) -> (r: FieldName)
        ensures
            r.atom == atom,
    {
        FieldName { atom }
    }

    pub fn as_str(&self) -> (r: &str)
        ensures
            r@ == self.atom.text@,
    {
        self.atom.as_str()
    }
}

impl Syntax for FieldName {
    open spec fn term(&self, s: Spans) -> Term {
        Term::Text(self.atom.text@)
    }
}

impl FormatEquivalent for FieldName {
    fn format_equivalent(&self, other: &Self) -> (r: bool) {
        self.atom.format_equivalent(&other.atom)
    }
}

impl DeepClone for FieldName {
    fn deep_clone(&self) -> (r: Self) {
        FieldName { atom: self.atom.deep_clone() }
    }
}

/// Name of a union constructor.
#[derive(Debug, Clone, PartialEq, Eq, Hash)]
pub struct ConstructorName {
    pub atom: NameAtom,
}

impl ConstructorName {
    pub fn from_atom(atom: NameAtom) -> (r: ConstructorName)
        ensures
            r.atom == atom,
    {
        ConstructorName { atom }
    }

    pub fn as_str(&self) -> (r: &str)
        ensures
            r@ == self.atom.text@,
    {
        self.atom.as_str()
    }
}

impl Syntax for ConstructorName {
    open spec fn term(&self, s: Spans) -> Term {
        Term::Text(self.atom.text@)
    }
}

impl FormatEquivalent for ConstructorName {
    fn format_equivalent(&self, other: &Self) -> (r: bool) {
        self.atom.format_equivalent(&other.atom)
    }
}

impl DeepClone for ConstructorName {
    fn deep_clone(&self) -> (r: Self) {
        ConstructorName { atom: self.atom.deep_clone() }
    }
}

/// Name of a declared type.
#[derive(Debug, Clone, PartialEq, Eq, Hash)]
pub struct StructTypeName {
    pub atom: NameAtom,
}

impl StructTypeName {
    pub fn from_atom(atom: NameAtom) -> (r: StructTypeName)
        ensures
            r.atom == atom,
    {
        StructTypeName { atom }
    }

    pub fn as_str(&self) -> (r: &str)
        ensures
            r@ == self.atom.text@,
    {
        self.atom.as_str()
    }
}

impl Syntax for StructTypeName {
    open spec fn term(&self, s: Spans) -> Term {
        Term::Text(self.atom.text@)
    }
}

impl FormatEquivalent for StructTypeName {
    fn format_equivalent(&self, other: &Self) -> (r: bool) {
        self.atom.format_equivalent(&other.atom)
    }
}

impl DeepClone for StructTypeName {
    fn deep_clone(&self) -> (r: Self) {
        StructTypeName { atom: self.atom.deep_clone() }
    }
}

/// Name of a generic parameter.
#[derive(Debug, Clone, PartialEq, Eq, Hash)]
pub struct GenericParamName {
    pub atom: NameAtom,
}

impl GenericParamName {
    pub fn from_atom(atom: NameAtom) -> (r: GenericParamName)
        ensures
            r.atom == atom,
    {
        GenericParamName { atom }
    }

    pub fn as_str(&self) -> (r: &str)
        ensures
            r@ == self.atom.text@,
    {
        self.atom.as_str()
    }
}

impl Syntax for GenericParamName {
    open spec fn term(&self, s: Spans) -> Term {
        Term::Text(self.atom.text@)
    }
}

impl FormatEquivalent for GenericParamName {
    fn format_equivalent(&self, other: &Self) -> (r: bool) {
        self.atom.format_equivalent(&other.atom)
    }
}

impl DeepClone for GenericParamName {
    fn deep_clone(&self) -> (r: Self) {
        GenericParamName { atom: self.atom.deep_clone() }
    }
}

/// Name of a plot property.
#[derive(Debug, Clone, PartialEq, Eq, Hash)]
pub struct PlotPropertyName {
    pub atom: NameAtom,
}

impl PlotPropertyName {
    pub fn from_atom(atom: NameAtom) -> (r: PlotPropertyName)
        ensures
            r.atom == atom,
    {
        PlotPropertyName { atom }
    }

    pub fn as_str(&self) -> (r: &str)
        ensures
            r@ == self.atom.text@,
    {
        self.atom.as_str()
    }
}

impl Syntax for PlotPropertyName {
    open spec fn term(&self, s: Spans) -> Term {
        Term::Text(self.atom.text@)
    }
}

impl FormatEquivalent for PlotPropertyName {
    fn format_equivalent(&self, other: &Self) -> (r: bool) {
        self.atom.format_equivalent(&other.atom)
    }
}

impl DeepClone for PlotPropertyName {
    fn deep_clone(&self) -> (r: Self) {
        PlotPropertyName { atom: self.atom.deep_clone() }
    }
}

/// Name of a lexically bound local.
#[derive(Debug, Clone, PartialEq, Eq, Hash)]
pub struct LocalName {
    pub atom: NameAtom,
}

impl LocalName {
    pub fn from_atom(atom: NameAtom) -> (r: LocalName)
        ensures
            r.atom == atom,
    {
        LocalName { atom }
    }

    pub fn as_str(&self) -> (r: &str)
        ensures
            r@ == self.atom.text@,
    {
        self.atom.as_str()
    }
}

impl Syntax for LocalName {
    open spec fn term(&self, s: Spans) -> Term {
        Term::Text(self.atom.text@)
    }
}

impl FormatEquivalent for LocalName {
    fn format_equivalent(&self, other: &Self) -> (r: bool) {
        self.atom.format_equivalent(&other.atom)
    }
}

impl DeepClone for LocalName {
    fn deep_clone(&self) -> (r: Self) {
        LocalName { atom: self.atom.deep_clone() }
    }
}

/// Alias under which a module is imported.
#[derive(Debug, Clone, PartialEq, Eq, Hash)]
pub struct ModuleAliasName {
    pub atom: NameAtom,
}

impl ModuleAliasName {
    pub fn from_atom(atom: NameAtom) -> (r: ModuleAliasName)
        ensures
            r.atom == atom,
    {
        ModuleAliasName { atom }
    }

    pub fn as_str(&self) -> (r: &str)
        ensures
            r@ == self.atom.text@,
    {
        self.atom.as_str()
    }
}

impl Syntax for ModuleAliasName {
    open spec fn term(&self, s: Spans) -> Term {
        Term::Text(self.atom.text@)
    }
}

impl FormatEquivalent for ModuleAliasName {
    fn format_equivalent(&self, other: &Self) -> (r: bool) {
        self.atom.format_equivalent(&other.atom)
    }
}

impl DeepClone for ModuleAliasName {
    fn deep_clone(&self) -> (r: Self) {
        ModuleAliasName { atom: self.atom.deep_clone() }
    }
}

/// Dimension variable of a plugin signature.
#[derive(Debug, Clone, PartialEq, Eq, Hash)]
pub struct DimVarName {
    pub atom: NameAtom,
}

impl DimVarName {
    pub fn from_atom(atom: NameAtom) -> (r: DimVarName)
        ensures
            r.atom == atom,
    {
        DimVarName { atom }
    }

    pub fn as_str(&self) -> (r: &str)
        ensures
            r@ == self.atom.text@,
    {
        self.atom.as_str()
    }
}

impl Syntax for DimVarName {
    open spec fn term(&self, s: Spans) -> Term {
        Term::Text(self.atom.text@)
    }
}

impl FormatEquivalent for DimVarName {
    fn format_equivalent(&self, other: &Self) -> (r: bool) {
        self.atom.format_equivalent(&other.atom)
    }
}

impl DeepClone for DimVarName {
    fn deep_clone(&self) -> (r: Self) {
        DimVarName { atom: self.atom.deep_clone() }
    }
}

/// Index variable of a plugin signature.
#[derive(Debug, Clone, PartialEq, Eq, Hash)]
pub struct IndexVarName {
    pub atom: NameAtom,
}

impl IndexVarName {
    pub fn from_atom(atom: NameAtom) -> (r: IndexVarName)
        ensures
            r.atom == atom,
    {
        IndexVarName { atom }
    }

    pub fn as_str(&self) -> (r: &str)
        ensures
            r@ == self.atom.text@,
    {
        self.atom.as_str()
    }
}

impl Syntax for IndexVarName {
    open spec fn term(&self, s: Spans) -> Term {
        Term::Text(self.atom.text@)
    }
}

impl FormatEquivalent for IndexVarName {
    fn format_equivalent(&self, other: &Self) -> (r: bool) {
        self.atom.format_equivalent(&other.atom)
    }
}

impl DeepClone for IndexVarName {
    fn deep_clone(&self) -> (r: Self) {
        IndexVarName { atom: self.atom.deep_clone() }
    }
}

/// Name of a plugin function.
#[derive(Debug, Clone, PartialEq, Eq, Hash)]
pub struct FnName {
    pub atom: NameAtom,
}

impl FnName {
    pub fn from_atom(atom: NameAtom) -> (r: FnName)
        ensures
            r.atom == atom,
    {
        FnName { atom }
    }

    pub fn as_str(&self) -> (r: &str)
        ensures
            r@ == self.atom.text@,
    {
        self.atom.as_str()
    }
}

impl Syntax for FnName {
    open spec fn term(&self, s: Spans) -> Term {
        Term::Text(self.atom.text@)
    }
}

impl FormatEquivalent for FnName {
    fn format_equivalent(&self, other: &Self) -> (r: bool) {
        self.atom.format_equivalent(&other.atom)
    }
}

impl DeepClone for FnName {
    fn deep_clone(&self) -> (r: Self) {
        FnName { atom: self.atom.deep_clone() }
    }
}

/// Name of a plugin function parameter.
#[derive(Debug, Clone, PartialEq, Eq, Hash)]
pub struct FnParamName {
    pub atom: NameAtom,
}

impl FnParamName {
    pub fn from_atom(atom: NameAtom) -> (r: FnParamName)
        ensures
            r.atom == atom,
    {
        FnParamName { atom }
    }

    pub fn as_str(&self) -> (r: &str)
        ensures
            r@ == self.atom.text@,
    {
        self.atom.as_str()
    }
}

impl Syntax for FnParamName {
    open spec fn term(&self, s: Spans) -> Term {
        Term::Text(self.atom.text@)
    }
}

impl FormatEquivalent for FnParamName {
    fn format_equivalent(&self, other: &Self) -> (r: bool) {
        self.atom.format_equivalent(&other.atom)
    }
}

impl DeepClone for FnParamName {
    fn deep_clone(&self) -> (r: Self) {
        FnParamName { atom: self.atom.deep_clone() }
    }
}

} // verus!
