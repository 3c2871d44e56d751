//! Messages.

use crate::hir::datetime::civil_text;
use crate::hir::error::ExprLowerError;
use crate::hir::lowering::{scoped_path, unit_path};
use crate::hir::resolve::{dotted_path, lemma_path_names, DeclSymbolKind, ModuleResolveError, Namespace};
use crate::hir::tree::DagId;
use crate::hir::visit::owner_of;
use crate::syntax::ast::GenericConstraint;
use crate::syntax::text::{decimal, decimal_string};
use vstd::prelude::*;
use vstd::string::StringExecFns;

verus! {

impl Namespace {
    pub open spec fn text(self) -> Seq<char> {
        match self {
            Namespace::Decl => "declaration"@,
            Namespace::Index => "index"@,
            Namespace::Type => "type"@,
            Namespace::Constructor => "constructor"@,
            Namespace::Dim => "dimension"@,
            Namespace::Unit => "unit"@,
        }
    }

    pub fn as_str(&self) -> (r: &'static str)
        ensures
            r@ == self.text(),
    {
        match self {
            Namespace::Decl => "declaration",
            Namespace::Index => "index",
            Namespace::Type => "type",
            Namespace::Constructor => "constructor",
            Namespace::Dim => "dimension",
            Namespace::Unit => "unit",
        }
    }
}

pub open spec fn kind_text(kind: Option<DeclSymbolKind>) -> Seq<char> {
    match kind {
        Some(DeclSymbolKind::Param) => "param"@,
        Some(DeclSymbolKind::Node) => "node"@,
        Some(DeclSymbolKind::Const) => "const node"@,
        None => "nothing"@,
    }
}

fn kind_str(kind: Option<DeclSymbolKind>) -> (r: &'static str)
    ensures
        r@ == kind_text(kind),
{
    match kind {
        Some(DeclSymbolKind::Param) => "param",
        Some(DeclSymbolKind::Node) => "node",
        Some(DeclSymbolKind::Const) => "const node",
        None => "nothing",
    }
}

/// The first `n` names with dots between them, without the package.
pub open spec fn inner_names(owner: Seq<Seq<char>>, n: nat) -> Seq<char>
    decreases n,
{
    if n <= 1 || n > owner.len() {
        Seq::empty()
    } else if n == 2 {
        owner[1]
    } else {
        inner_names(owner, (n - 1) as nat) + "."@ + owner[n - 1]
    }
}

/// A module in messages: its path inside its package.
pub open spec fn module_text(owner: Seq<Seq<char>>) -> Seq<char> {
    inner_names(owner, owner.len())
}

impl DagId {
    /// The module's path inside its package.
    pub fn display(&self) -> (r: String)
        ensures
            r@ == module_text(owner_of(*self)),
    {
        let mut text: String = String::new();
        assert(text@ =~= Seq::empty());
        if self.segments.len() == 0 {
            return text;
        }
        for i in 1..self.segments.len()
            invariant
                text@ == inner_names(owner_of(*self), i as nat),
        {
            if i > 1 {
                text.append(".");
            }
            let ghost before = text@;
            text.append(self.segments[i].as_str());
            if i == 1 {
                assert(text@ =~= self.segments@[1]@);
            }
        }
        text
    }
}

impl ModuleResolveError {
    /// The message.
    pub open spec fn text(self) -> Seq<char> {
        match self {
            ModuleResolveError::UnknownModule { module } => "unknown module `"@ + module_text(
                owner_of(module)
            ) + "`"@,
            ModuleResolveError::UnknownModuleAlias { owner, alias } => "unknown module alias `"@
                + alias@ + "` in `"@ + module_text(owner_of(owner)) + "`"@,
            ModuleResolveError::UnknownName {
                owner,
                namespace,
                name,
            } => "unknown "@ + namespace.text() + " `"@ + name@ + "` in `"@ + module_text(owner_of(owner)) + "`"@,
            ModuleResolveError::PrivateName {
                owner,
                namespace,
                name,
            } => namespace.text() + " `"@ + name@ + "` is private in `"@ + module_text(owner_of(owner)) + "`"@,
            ModuleResolveError::UnknownIndexVariant { index, variant } => "index `"@ + module_text(
                owner_of(index.owner)
            ) + "."@ + index.name.atom.text@ + "` has no variant `"@ + variant.atom.text@ + "`"@,
            ModuleResolveError::AmbiguousIndexVariant {
                owner,
                variant,
            } => "variant `"@ + variant@ + "` belongs to several indexes of `"@ + module_text(owner_of(owner)) + "`"@,
            ModuleResolveError::NotConst { name, found } => "expected const declaration `"@ + module_text(
                owner_of(name.owner)
            ) + "."@ + name.name.atom.text@ + "`, found "@ + kind_text(found),
            ModuleResolveError::DuplicateModule { module } => "module `"@ + module_text(
                owner_of(module)
            ) + "` is declared twice"@,
        }
    }

    /// The message.
    pub fn message(&self) -> (r: String)
        ensures
            r@ == self.text(),
    {
        match self {
            ModuleResolveError::UnknownModule { module } => {
                let mut text: String = "unknown module `".to_owned();
                text.append(module.display().as_str());
                text.append("`");
                text
            },
            ModuleResolveError::UnknownModuleAlias { owner, alias } => {
                let mut text: String = "unknown module alias `".to_owned();
                text.append(alias.as_str());
                text.append("` in `");
                text.append(owner.display().as_str());
                text.append("`");
                text
            },
            ModuleResolveError::UnknownName { owner, namespace, name } => {
                let mut text: String = "unknown ".to_owned();
                text.append(namespace.as_str());
                text.append(" `");
                text.append(name.as_str());
                text.append("` in `");
                text.append(owner.display().as_str());
                text.append("`");
                text
            },
            ModuleResolveError::PrivateName { owner, namespace, name } => {
                let mut text: String = namespace.as_str().to_owned();
                text.append(" `");
                text.append(name.as_str());
                text.append("` is private in `");
                text.append(owner.display().as_str());
                text.append("`");
                text
            },
            ModuleResolveError::UnknownIndexVariant { index, variant } => {
                let mut text: String = "index `".to_owned();
                text.append(index.owner.display().as_str());
                text.append(".");
                text.append(index.name.atom.text.as_str());
                text.append("` has no variant `");
                text.append(variant.atom.text.as_str());
                text.append("`");
                text
            },
            ModuleResolveError::AmbiguousIndexVariant { owner, variant } => {
                let mut text: String = "variant `".to_owned();
                text.append(variant.as_str());
                text.append("` belongs to several indexes of `");
                text.append(owner.display().as_str());
                text.append("`");
                text
            },
            ModuleResolveError::NotConst { name, found } => {
                let mut text: String = "expected const declaration `".to_owned();
                text.append(name.owner.display().as_str());
                text.append(".");
                text.append(name.name.atom.text.as_str());
                text.append("`, found ");
                text.append(kind_str(*found));
                text
            },
            ModuleResolveError::DuplicateModule { module } => {
                let mut text: String = "module `".to_owned();
                text.append(module.display().as_str());
                text.append("` is declared twice");
                text
            },
        }
    }
}

impl ExprLowerError {
    /// The message.
    pub open spec fn text(self) -> Seq<char> {
        match self {
            ExprLowerError::ModuleResolve { source, span } => source.text(),
            ExprLowerError::UnknownNatParam { name, span } => "unknown natural-number parameter `"@ + name@ + "`"@,
            ExprLowerError::ExpectedIndexFoundNat {
                expression,
                span,
            } => "expected an index, found natural number `"@ + expression@ + "`; write `Fin("@ + expression@ + ")`"@,
            ExprLowerError::GenericArgCount {
                name,
                expected,
                got,
                span,
            } => "`"@ + name@ + "` expects "@ + decimal(expected as nat) + " generic argument(s), got "@ + decimal(got as nat),
            ExprLowerError::GenericArgMismatch { expected, span } => match expected {
                GenericConstraint::Dim => "generic argument is no dimension"@,
                GenericConstraint::Index => "generic argument is no index"@,
                GenericConstraint::Nat => "generic argument is no natural number"@,
                GenericConstraint::Type => "generic argument is no type"@,
            },
            ExprLowerError::UnknownLocalRef { name, span } => "unknown local variable `"@ + name.atom.text@ + "`"@,
            ExprLowerError::UnknownGraphRef { name, span } => "unknown graph reference `@"@ + dotted_path(
                scoped_path(name)
            ) + "`"@,
            ExprLowerError::TooManyLocals { span } => "too many local bindings in one expression"@,
            ExprLowerError::InvalidMapEntryKey { span } => "map entry key category does not match its index category"@,
            ExprLowerError::ExtraMapVariant {
                index_name,
                variant_name,
                span,
            } => "extra variant `"@ + variant_name.atom.text@ + "` in map literal for index `"@
                + index_name.atom.text@ + "`"@,
            ExprLowerError::DuplicateLocalBinding {
                name,
                first,
                duplicate,
            } => "duplicate local binding `"@ + name.atom.text@ + "`"@,
            ExprLowerError::UnknownFunction { path, span } => "unknown function `"@ + path@ + "`"@,
            ExprLowerError::UnknownExternFunction {
                alias,
                name,
                span,
            } => "plugin alias `"@ + alias.atom.text@ + "` does not declare a function `"@ + name.atom.text@ + "`"@,
            ExprLowerError::NamedArgumentsOnFunction {
                function,
                argument_names,
                span,
            } => "function `"@ + function.text() + "` uses positional arguments"@,
            ExprLowerError::UnsupportedFunctionGenericArgs { path, span } => "function `"@
                + path@ + "` does not accept generic arguments"@,
            ExprLowerError::WrongArity {
                name,
                expected,
                got,
                span,
            } => "function `"@ + name.atom.text@ + "` expects "@ + decimal(expected as nat)
                + " argument(s), got "@ + decimal(got as nat),
            ExprLowerError::InvalidTimezone {
                timezone,
                tzdb_version,
                span,
            } => "unknown timezone `"@ + timezone@ + "`"@,
            ExprLowerError::EpochTimeScaleArgumentCount { got, span } => "epoch requires exactly one static time-scale argument, got "@
                + decimal(got as nat),
            ExprLowerError::InvalidEpochTimeScaleArgument { span } => "epoch's static time-scale argument must be a bare name"@,
            ExprLowerError::UnsupportedEpochTimeScale { name, span } => "unsupported epoch time scale `"@
                + name.text@ + "`"@,
            ExprLowerError::InvalidDatetimeLiteral {
                expectation,
                reason,
                span,
            } => "invalid datetime literal: "@ + reason@,
            ExprLowerError::NonexistentCivilDateTime {
                datetime,
                time_zone,
                before,
                after,
                datetime_span,
                time_zone_span,
            } => "local civil datetime `"@ + civil_text(datetime) + "` does not exist in timezone `"@ + time_zone.name@ + "`"@,
            ExprLowerError::RepeatedCivilDateTime {
                datetime,
                time_zone,
                before,
                after,
                datetime_span,
                time_zone_span,
            } => "local civil datetime `"@ + civil_text(datetime) + "` occurs twice in timezone `"@ + time_zone.name@ + "`"@,
            ExprLowerError::TimeZoneRegistryInvariant {
                time_zone,
                reason,
                span,
            } => "validated timezone `"@ + time_zone.name@ + "` could not be loaded: "@ + reason@,
            ExprLowerError::UnknownUnit { name, span } => "unknown unit `"@ + dotted_path(unit_path(name)) + "`"@,
            ExprLowerError::UnknownPattern { path, span } => "unknown match pattern `"@ + path@ + "`"@,
        }
    }

    /// The message.
    pub fn message(&self) -> (r: String)
        ensures
            r@ == self.text(),
    {
        match self {
            ExprLowerError::ModuleResolve { source, span } => source.message(),
            ExprLowerError::UnknownNatParam { name, span } => {
                let mut text: String = "unknown natural-number parameter `".to_owned();
                text.append(name.as_str());
                text.append("`");
                text
            },
            ExprLowerError::ExpectedIndexFoundNat { expression, span } => {
                let mut text: String = "expected an index, found natural number `".to_owned();
                text.append(expression.as_str());
                text.append("`; write `Fin(");
                text.append(expression.as_str());
                text.append(")`");
                text
            },
            ExprLowerError::GenericArgCount { name, expected, got, span } => {
                let mut text: String = "`".to_owned();
                text.append(name.as_str());
                text.append("` expects ");
                text.append(decimal_string(*expected as u64).as_str());
                text.append(" generic argument(s), got ");
                text.append(decimal_string(*got as u64).as_str());
                text
            },
            ExprLowerError::GenericArgMismatch { expected, span } => match expected {
                GenericConstraint::Dim => "generic argument is no dimension".to_owned(),
                GenericConstraint::Index => "generic argument is no index".to_owned(),
                GenericConstraint::Nat => "generic argument is no natural number".to_owned(),
                GenericConstraint::Type => "generic argument is no type".to_owned(),
            },
            ExprLowerError::UnknownLocalRef { name, span } => {
                let mut text: String = "unknown local variable `".to_owned();
                text.append(name.as_str());
                text.append("`");
                text
            },
            ExprLowerError::UnknownGraphRef { name, span } => {
                let mut text: String = "unknown graph reference `@".to_owned();
                let path = name.to_name_path();
                proof {
                    lemma_path_names(path);
                }
                text.append(path.display_path().as_str());
                text.append("`");
                text
            },
            ExprLowerError::TooManyLocals { span } => "too many local bindings in one expression".to_owned(),
            ExprLowerError::InvalidMapEntryKey { span } => "map entry key category does not match its index category".to_owned(),
            ExprLowerError::ExtraMapVariant { index_name, variant_name, span } => {
                let mut text: String = "extra variant `".to_owned();
                text.append(variant_name.as_str());
                text.append("` in map literal for index `");
                text.append(index_name.as_str());
                text.append("`");
                text
            },
            ExprLowerError::DuplicateLocalBinding { name, first, duplicate } => {
                let mut text: String = "duplicate local binding `".to_owned();
                text.append(name.as_str());
                text.append("`");
                text
            },
            ExprLowerError::UnknownFunction { path, span } => {
                let mut text: String = "unknown function `".to_owned();
                text.append(path.as_str());
                text.append("`");
                text
            },
            ExprLowerError::UnknownExternFunction { alias, name, span } => {
                let mut text: String = "plugin alias `".to_owned();
                text.append(alias.as_str());
                text.append("` does not declare a function `");
                text.append(name.as_str());
                text.append("`");
                text
            },
            ExprLowerError::NamedArgumentsOnFunction { function, argument_names, span } => {
                let mut text: String = "function `".to_owned();
                text.append(function.display().as_str());
                text.append("` uses positional arguments");
                text
            },
            ExprLowerError::UnsupportedFunctionGenericArgs { path, span } => {
                let mut text: String = "function `".to_owned();
                text.append(path.as_str());
                text.append("` does not accept generic arguments");
                text
            },
            ExprLowerError::WrongArity { name, expected, got, span } => {
                let mut text: String = "function `".to_owned();
                text.append(name.as_str());
                text.append("` expects ");
                text.append(decimal_string(*expected as u64).as_str());
                text.append(" argument(s), got ");
                text.append(decimal_string(*got as u64).as_str());
                text
            },
            ExprLowerError::InvalidTimezone { timezone, tzdb_version, span } => {
                let mut text: String = "unknown timezone `".to_owned();
                text.append(timezone.as_str());
                text.append("`");
                text
            },
            ExprLowerError::EpochTimeScaleArgumentCount { got, span } => {
                let mut text: String = "epoch requires exactly one static time-scale argument, got ".to_owned();
                text.append(decimal_string(*got as u64).as_str());
                text
            },
            ExprLowerError::InvalidEpochTimeScaleArgument { span } => "epoch's static time-scale argument must be a bare name".to_owned(),
            ExprLowerError::UnsupportedEpochTimeScale { name, span } => {
                let mut text: String = "unsupported epoch time scale `".to_owned();
                text.append(name.as_str());
                text.append("`");
                text
            },
            ExprLowerError::InvalidDatetimeLiteral { expectation, reason, span } => {
                let mut text: String = "invalid datetime literal: ".to_owned();
                text.append(reason.as_str());
                text
            },
            ExprLowerError::NonexistentCivilDateTime { datetime, time_zone, before, after, datetime_span, time_zone_span } => {
                let mut text: String = "local civil datetime `".to_owned();
                text.append(datetime.display().as_str());
                text.append("` does not exist in timezone `");
                text.append(time_zone.name.as_str());
                text.append("`");
                text
            },
            ExprLowerError::RepeatedCivilDateTime { datetime, time_zone, before, after, datetime_span, time_zone_span } => {
                let mut text: String = "local civil datetime `".to_owned();
                text.append(datetime.display().as_str());
                text.append("` occurs twice in timezone `");
                text.append(time_zone.name.as_str());
                text.append("`");
                text
            },
            ExprLowerError::TimeZoneRegistryInvariant { time_zone, reason, span } => {
                let mut text: String = "validated timezone `".to_owned();
                text.append(time_zone.name.as_str());
                text.append("` could not be loaded: ");
                text.append(reason.as_str());
                text
            },
            ExprLowerError::UnknownUnit { name, span } => {
                let mut text: String = "unknown unit `".to_owned();
                text.append(name.display_path().as_str());
                text.append("`");
                text
            },
            ExprLowerError::UnknownPattern { path, span } => {
                let mut text: String = "unknown match pattern `".to_owned();
                text.append(path.as_str());
                text.append("`");
                text
            },
        }
    }
}

} // verus!
