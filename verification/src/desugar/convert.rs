//! From the raw syntax tree to the desugared one.

use crate::desugar::desugared_ast;
use crate::syntax::ast::{
    AssertBody, AssertDecl, BinOp, DagDecl, DeclKind, Declaration, DimExpr, DomainBound, Encoding, Expr, ExprKind,
    ExternFnDecl, ExternFnParam, FieldDecl, FieldInit, FigureDecl, File, GenericArg, GenericParam, IncludeDecl,
    IndexArg, IndexDecl, IndexDeclKind, LayerDecl, MapEntry, MapEntryKey, MarkSpec, MatchArm, ParamBinding, ParamDecl,
    PlotDecl, PlotField, PluginImportDecl, RawDeclSugar, RawExprSugar, TypeDecl, TypeDeclBody, TypeExpr, TypeExprKind,
    UnaryOp, UnionMember, UnitDecl, UnitDef, UnresolvedRef, ValueDecl,
};
use crate::syntax::desugar::{expand_multi_decl, slot_declaration, ExpandedSlotDecl};
use crate::syntax::non_empty::NonEmpty;
use crate::syntax::term::{Reading, Spans, Syntax, Tag, Term, at, node1, node3, node4, seq_terms};
use vstd::prelude::*;

verus! {

impl Expr {
    /// The same node with every table literal below it written as a map literal.
    pub fn desugar(self) -> (r: desugared_ast::Expr)
        ensures
            r.to_term() == self.to_term(Reading::Desugared),
        decreases self,
    {
        proof {
            reveal(ExprKind::to_term);
        }
        desugared_ast::Expr {
            kind: self.kind.desugar(),
            span: self.span,
        }
    }

    pub(crate) fn desugar_list(v: Vec<Expr>) -> (r: Vec<desugared_ast::Expr>)
        ensures
            desugared_ast::Expr::terms(r) == Expr::terms(v, Reading::Desugared),
        decreases v,
    {
        let ghost all = v;
        let mut out: Vec<desugared_ast::Expr> = Vec::new();
        for x in iter: v
            invariant
                iter.seq() == all@,
                out.len() == iter.index(),
                forall|j: int| 0 <= j < iter.index() ==> (#[trigger] out[j]).to_term() == all[j].to_term(
                    Reading::Desugared
                ),
        {
            assert(x == all[iter.index() as int]);
            out.push(x.desugar());
        }
        assert(desugared_ast::Expr::terms(out) =~= Expr::terms(all, Reading::Desugared));
        out
    }
}

impl ExprKind {
    /// The same node with every table literal below it written as a map literal.
    pub fn desugar(self) -> (r: desugared_ast::ExprKind)
        ensures
            r.to_term() == self.to_term(Reading::Desugared),
        decreases self,
    {
        proof {
            reveal(ExprKind::to_term);
        }
        match self {
            ExprKind::Number(value) => desugared_ast::ExprKind::Number(value),
            ExprKind::Integer(value) => desugared_ast::ExprKind::Integer(value),
            ExprKind::Bool(value) => desugared_ast::ExprKind::Bool(value),
            ExprKind::StringLiteral(value) => desugared_ast::ExprKind::StringLiteral(value),
            ExprKind::GraphRef(value) => desugared_ast::ExprKind::GraphRef(value),
            ExprKind::BinOp { op, lhs, rhs } => desugared_ast::ExprKind::BinOp {
                op,
                lhs: Box::new((*lhs).desugar()),
                rhs: Box::new((*rhs).desugar()),
            },
            ExprKind::UnaryOp { op, operand } => desugared_ast::ExprKind::UnaryOp {
                op,
                operand: Box::new((*operand).desugar()),
            },
            ExprKind::FnCall { callee, generic_args, args } => desugared_ast::ExprKind::FnCall {
                callee,
                generic_args: GenericArg::desugar_list(generic_args),
                args: Expr::desugar_list(args),
            },
            ExprKind::If { condition, then_branch, else_branch } => desugared_ast::ExprKind::If {
                condition: Box::new((*condition).desugar()),
                then_branch: Box::new((*then_branch).desugar()),
                else_branch: Box::new((*else_branch).desugar()),
            },
            ExprKind::QuantityLiteral { value, unit } => desugared_ast::ExprKind::QuantityLiteral { value, unit },
            ExprKind::Convert { expr, target } => desugared_ast::ExprKind::Convert {
                expr: Box::new((*expr).desugar()),
                target,
            },
            ExprKind::DisplayTimezone { expr, timezone } => desugared_ast::ExprKind::DisplayTimezone {
                expr: Box::new((*expr).desugar()),
                timezone,
            },
            ExprKind::FieldAccess { expr, field } => desugared_ast::ExprKind::FieldAccess {
                expr: Box::new((*expr).desugar()),
                field,
            },
            ExprKind::ConstructorCall { callee, generic_args, fields } => desugared_ast::ExprKind::ConstructorCall {
                callee,
                generic_args: GenericArg::desugar_list(generic_args),
                fields: FieldInit::desugar_list(fields),
            },
            ExprKind::MapLiteral { entries } => desugared_ast::ExprKind::MapLiteral {
                entries: MapEntry::desugar_list(entries)
            },
            ExprKind::ForComp { bindings, body } => desugared_ast::ExprKind::ForComp {
                bindings,
                body: Box::new((*body).desugar()),
            },
            ExprKind::IndexAccess { expr, args } => desugared_ast::ExprKind::IndexAccess {
                expr: Box::new((*expr).desugar()),
                args: NonEmpty::new((*args.first).desugar(), IndexArg::desugar_list(args.rest)),
            },
            ExprKind::Scan { source, init, acc_name, val_name, body } => desugared_ast::ExprKind::Scan {
                source: Box::new((*source).desugar()),
                init: Box::new((*init).desugar()),
                acc_name,
                val_name,
                body: Box::new((*body).desugar()),
            },
            ExprKind::Unfold { axis, init, prev_state_name, prev_index_name, index_name, body } => desugared_ast::ExprKind::Unfold { axis, init: Box::new((*init).desugar()), prev_state_name, prev_index_name, index_name, body: Box::new((*body).desugar()) },
            ExprKind::KeyForm { kind, axis, arg } => desugared_ast::ExprKind::KeyForm {
                kind,
                axis,
                arg: Box::new((*arg).desugar()),
            },
            ExprKind::Match { scrutinee, arms } => desugared_ast::ExprKind::Match {
                scrutinee: Box::new((*scrutinee).desugar()),
                arms: MatchArm::desugar_list(arms),
            },
            ExprKind::InlineDagRef { path, args, output } => desugared_ast::ExprKind::InlineDagRef {
                path,
                args: ParamBinding::desugar_list(args),
                output,
            },
            ExprKind::UnresolvedRef(value) => desugared_ast::ExprKind::UnresolvedRef(value),
            ExprKind::Sugar(
                RawExprSugar::TableLiteral { indexes: _, entries }
            ) => desugared_ast::ExprKind::MapLiteral {
                entries: MapEntry::desugar_list(entries),
            },
        }
    }
}

impl MapEntry {
    /// The same node with every table literal below it written as a map literal.
    pub fn desugar(self) -> (r: desugared_ast::MapEntry)
        ensures
            r.to_term() == self.to_term(Reading::Desugared),
        decreases self,
    {
        desugared_ast::MapEntry {
            keys: NonEmpty::new((*self.keys.first).desugar(), MapEntryKey::desugar_list(self.keys.rest)),
            value: self.value.desugar(),
        }
    }

    pub(crate) fn desugar_list(v: Vec<MapEntry>) -> (r: Vec<desugared_ast::MapEntry>)
        ensures
            desugared_ast::MapEntry::terms(r) == MapEntry::terms(v, Reading::Desugared),
        decreases v,
    {
        let ghost all = v;
        let mut out: Vec<desugared_ast::MapEntry> = Vec::new();
        for x in iter: v
            invariant
                iter.seq() == all@,
                out.len() == iter.index(),
                forall|j: int| 0 <= j < iter.index() ==> (#[trigger] out[j]).to_term() == all[j].to_term(
                    Reading::Desugared
                ),
        {
            assert(x == all[iter.index() as int]);
            out.push(x.desugar());
        }
        assert(desugared_ast::MapEntry::terms(out) =~= MapEntry::terms(all, Reading::Desugared));
        out
    }
}

impl MapEntryKey {
    /// The same node with every table literal below it written as a map literal.
    pub fn desugar(self) -> (r: desugared_ast::MapEntryKey)
        ensures
            r.to_term() == self.to_term(Reading::Desugared),
        decreases self,
    {
        match self {
            MapEntryKey::Discrete {
                index,
                additional_index_spans,
                entry,
            } => desugared_ast::MapEntryKey::Discrete { index, additional_index_spans, entry },
            MapEntryKey::Expression { axis, expr } => desugared_ast::MapEntryKey::Expression {
                axis,
                expr: expr.desugar(),
            },
        }
    }

    pub(crate) fn desugar_list(v: Vec<MapEntryKey>) -> (r: Vec<desugared_ast::MapEntryKey>)
        ensures
            desugared_ast::MapEntryKey::terms(r) == MapEntryKey::terms(v, Reading::Desugared),
        decreases v,
    {
        let ghost all = v;
        let mut out: Vec<desugared_ast::MapEntryKey> = Vec::new();
        for x in iter: v
            invariant
                iter.seq() == all@,
                out.len() == iter.index(),
                forall|j: int| 0 <= j < iter.index() ==> (#[trigger] out[j]).to_term() == all[j].to_term(
                    Reading::Desugared
                ),
        {
            assert(x == all[iter.index() as int]);
            out.push(x.desugar());
        }
        assert(desugared_ast::MapEntryKey::terms(out) =~= MapEntryKey::terms(all, Reading::Desugared));
        out
    }
}

impl IndexArg {
    /// The same node with every table literal below it written as a map literal.
    pub fn desugar(self) -> (r: desugared_ast::IndexArg)
        ensures
            r.to_term() == self.to_term(Reading::Desugared),
        decreases self,
    {
        match self {
            IndexArg::Variant { index, variant } => desugared_ast::IndexArg::Variant { index, variant },
            IndexArg::Var(value) => desugared_ast::IndexArg::Var(value),
            IndexArg::Expr(value) => desugared_ast::IndexArg::Expr(Box::new((*value).desugar())),
        }
    }

    pub(crate) fn desugar_list(v: Vec<IndexArg>) -> (r: Vec<desugared_ast::IndexArg>)
        ensures
            desugared_ast::IndexArg::terms(r) == IndexArg::terms(v, Reading::Desugared),
        decreases v,
    {
        let ghost all = v;
        let mut out: Vec<desugared_ast::IndexArg> = Vec::new();
        for x in iter: v
            invariant
                iter.seq() == all@,
                out.len() == iter.index(),
                forall|j: int| 0 <= j < iter.index() ==> (#[trigger] out[j]).to_term() == all[j].to_term(
                    Reading::Desugared
                ),
        {
            assert(x == all[iter.index() as int]);
            out.push(x.desugar());
        }
        assert(desugared_ast::IndexArg::terms(out) =~= IndexArg::terms(all, Reading::Desugared));
        out
    }
}

impl FieldInit {
    /// The same node with every table literal below it written as a map literal.
    pub fn desugar(self) -> (r: desugared_ast::FieldInit)
        ensures
            r.to_term() == self.to_term(Reading::Desugared),
        decreases self,
    {
        desugared_ast::FieldInit {
            name: self.name,
            value: self.value.desugar(),
        }
    }

    pub(crate) fn desugar_list(v: Vec<FieldInit>) -> (r: Vec<desugared_ast::FieldInit>)
        ensures
            desugared_ast::FieldInit::terms(r) == FieldInit::terms(v, Reading::Desugared),
        decreases v,
    {
        let ghost all = v;
        let mut out: Vec<desugared_ast::FieldInit> = Vec::new();
        for x in iter: v
            invariant
                iter.seq() == all@,
                out.len() == iter.index(),
                forall|j: int| 0 <= j < iter.index() ==> (#[trigger] out[j]).to_term() == all[j].to_term(
                    Reading::Desugared
                ),
        {
            assert(x == all[iter.index() as int]);
            out.push(x.desugar());
        }
        assert(desugared_ast::FieldInit::terms(out) =~= FieldInit::terms(all, Reading::Desugared));
        out
    }
}

impl MatchArm {
    /// The same node with every table literal below it written as a map literal.
    pub fn desugar(self) -> (r: desugared_ast::MatchArm)
        ensures
            r.to_term() == self.to_term(Reading::Desugared),
        decreases self,
    {
        desugared_ast::MatchArm {
            pattern: self.pattern,
            body: self.body.desugar(),
            span: self.span,
        }
    }

    pub(crate) fn desugar_list(v: Vec<MatchArm>) -> (r: Vec<desugared_ast::MatchArm>)
        ensures
            desugared_ast::MatchArm::terms(r) == MatchArm::terms(v, Reading::Desugared),
        decreases v,
    {
        let ghost all = v;
        let mut out: Vec<desugared_ast::MatchArm> = Vec::new();
        for x in iter: v
            invariant
                iter.seq() == all@,
                out.len() == iter.index(),
                forall|j: int| 0 <= j < iter.index() ==> (#[trigger] out[j]).to_term() == all[j].to_term(
                    Reading::Desugared
                ),
        {
            assert(x == all[iter.index() as int]);
            out.push(x.desugar());
        }
        assert(desugared_ast::MatchArm::terms(out) =~= MatchArm::terms(all, Reading::Desugared));
        out
    }
}

impl ParamBinding {
    /// The same node with every table literal below it written as a map literal.
    pub fn desugar(self) -> (r: desugared_ast::ParamBinding)
        ensures
            r.to_term() == self.to_term(Reading::Desugared),
        decreases self,
    {
        desugared_ast::ParamBinding {
            name: self.name,
            value: self.value.desugar(),
            span: self.span,
        }
    }

    pub(crate) fn desugar_list(v: Vec<ParamBinding>) -> (r: Vec<desugared_ast::ParamBinding>)
        ensures
            desugared_ast::ParamBinding::terms(r) == ParamBinding::terms(v, Reading::Desugared),
        decreases v,
    {
        let ghost all = v;
        let mut out: Vec<desugared_ast::ParamBinding> = Vec::new();
        for x in iter: v
            invariant
                iter.seq() == all@,
                out.len() == iter.index(),
                forall|j: int| 0 <= j < iter.index() ==> (#[trigger] out[j]).to_term() == all[j].to_term(
                    Reading::Desugared
                ),
        {
            assert(x == all[iter.index() as int]);
            out.push(x.desugar());
        }
        assert(desugared_ast::ParamBinding::terms(out) =~= ParamBinding::terms(all, Reading::Desugared));
        out
    }
}

impl TypeExpr {
    /// The same node with every table literal below it written as a map literal.
    pub fn desugar(self) -> (r: desugared_ast::TypeExpr)
        ensures
            r.to_term() == self.to_term(Reading::Desugared),
        decreases self,
    {
        desugared_ast::TypeExpr {
            kind: self.kind.desugar(),
            constraints: DomainBound::desugar_list(self.constraints),
            span: self.span,
        }
    }

    pub(crate) fn desugar_list(v: Vec<TypeExpr>) -> (r: Vec<desugared_ast::TypeExpr>)
        ensures
            desugared_ast::TypeExpr::terms(r) == TypeExpr::terms(v, Reading::Desugared),
        decreases v,
    {
        let ghost all = v;
        let mut out: Vec<desugared_ast::TypeExpr> = Vec::new();
        for x in iter: v
            invariant
                iter.seq() == all@,
                out.len() == iter.index(),
                forall|j: int| 0 <= j < iter.index() ==> (#[trigger] out[j]).to_term() == all[j].to_term(
                    Reading::Desugared
                ),
        {
            assert(x == all[iter.index() as int]);
            out.push(x.desugar());
        }
        assert(desugared_ast::TypeExpr::terms(out) =~= TypeExpr::terms(all, Reading::Desugared));
        out
    }
}

impl TypeExprKind {
    /// The same node with every table literal below it written as a map literal.
    pub fn desugar(self) -> (r: desugared_ast::TypeExprKind)
        ensures
            r.to_term() == self.to_term(Reading::Desugared),
        decreases self,
    {
        match self {
            TypeExprKind::Dimensionless => desugared_ast::TypeExprKind::Dimensionless,
            TypeExprKind::Bool => desugared_ast::TypeExprKind::Bool,
            TypeExprKind::Int => desugared_ast::TypeExprKind::Int,
            TypeExprKind::Datetime => desugared_ast::TypeExprKind::Datetime,
            TypeExprKind::DatetimeApplication { type_args } => desugared_ast::TypeExprKind::DatetimeApplication {
                type_args: NonEmpty::new((*type_args.first).desugar(), TypeExpr::desugar_list(type_args.rest))
            },
            TypeExprKind::ComplexApplication { generic_args } => desugared_ast::TypeExprKind::ComplexApplication {
                generic_args: GenericArg::desugar_list(generic_args)
            },
            TypeExprKind::KeyApplication { generic_args } => desugared_ast::TypeExprKind::KeyApplication {
                generic_args: GenericArg::desugar_list(generic_args)
            },
            TypeExprKind::DimExpr(value) => desugared_ast::TypeExprKind::DimExpr(value),
            TypeExprKind::Indexed { base, indexes } => desugared_ast::TypeExprKind::Indexed {
                base: Box::new((*base).desugar()),
                indexes,
            },
            TypeExprKind::TypeApplication { name, generic_args } => desugared_ast::TypeExprKind::TypeApplication {
                name,
                generic_args: NonEmpty::new(
                    (*generic_args.first).desugar(),
                    GenericArg::desugar_list(generic_args.rest),
                ),
            },
        }
    }
}

impl DomainBound {
    /// The same node with every table literal below it written as a map literal.
    pub fn desugar(self) -> (r: desugared_ast::DomainBound)
        ensures
            r.to_term() == self.to_term(Reading::Desugared),
        decreases self,
    {
        desugared_ast::DomainBound {
            kind: self.kind,
            kind_span: self.kind_span,
            value: self.value.desugar(),
            span: self.span,
        }
    }

    pub(crate) fn desugar_list(v: Vec<DomainBound>) -> (r: Vec<desugared_ast::DomainBound>)
        ensures
            desugared_ast::DomainBound::terms(r) == DomainBound::terms(v, Reading::Desugared),
        decreases v,
    {
        let ghost all = v;
        let mut out: Vec<desugared_ast::DomainBound> = Vec::new();
        for x in iter: v
            invariant
                iter.seq() == all@,
                out.len() == iter.index(),
                forall|j: int| 0 <= j < iter.index() ==> (#[trigger] out[j]).to_term() == all[j].to_term(
                    Reading::Desugared
                ),
        {
            assert(x == all[iter.index() as int]);
            out.push(x.desugar());
        }
        assert(desugared_ast::DomainBound::terms(out) =~= DomainBound::terms(all, Reading::Desugared));
        out
    }
}

impl GenericArg {
    /// The same node with every table literal below it written as a map literal.
    pub fn desugar(self) -> (r: desugared_ast::GenericArg)
        ensures
            r.to_term() == self.to_term(Reading::Desugared),
        decreases self,
    {
        match self {
            GenericArg::Type(value) => desugared_ast::GenericArg::Type(value.desugar()),
            GenericArg::Index(value) => desugared_ast::GenericArg::Index(value),
            GenericArg::Nat(value) => desugared_ast::GenericArg::Nat(value),
            GenericArg::Ambiguous(value) => desugared_ast::GenericArg::Ambiguous(value),
        }
    }

    pub(crate) fn desugar_list(v: Vec<GenericArg>) -> (r: Vec<desugared_ast::GenericArg>)
        ensures
            desugared_ast::GenericArg::terms(r) == GenericArg::terms(v, Reading::Desugared),
        decreases v,
    {
        let ghost all = v;
        let mut out: Vec<desugared_ast::GenericArg> = Vec::new();
        for x in iter: v
            invariant
                iter.seq() == all@,
                out.len() == iter.index(),
                forall|j: int| 0 <= j < iter.index() ==> (#[trigger] out[j]).to_term() == all[j].to_term(
                    Reading::Desugared
                ),
        {
            assert(x == all[iter.index() as int]);
            out.push(x.desugar());
        }
        assert(desugared_ast::GenericArg::terms(out) =~= GenericArg::terms(all, Reading::Desugared));
        out
    }
}

impl ParamDecl {
    /// The same node over desugared expressions.
    pub fn desugar(self) -> (r: desugared_ast::ParamDecl)
        ensures
            r.to_term() == self.to_term(Reading::Desugared),
    {
        desugared_ast::ParamDecl {
            name: self.name,
            type_ann: self.type_ann.desugar(),
            value: match self.value { Some(some) => Some(some.desugar()), None => None },
        }
    }
}

impl ValueDecl {
    /// The same node over desugared expressions.
    pub fn desugar(self) -> (r: desugared_ast::ValueDecl)
        ensures
            r.to_term() == self.to_term(Reading::Desugared),
    {
        desugared_ast::ValueDecl {
            visibility: self.visibility,
            name: self.name,
            type_ann: self.type_ann.desugar(),
            value: self.value.desugar(),
        }
    }
}

impl UnitDef {
    /// The same node over desugared expressions.
    pub fn desugar(self) -> (r: desugared_ast::UnitDef)
        ensures
            r.to_term() == self.to_term(Reading::Desugared),
    {
        desugared_ast::UnitDef {
            scale_expr: self.scale_expr.desugar(),
            unit_expr: self.unit_expr,
            span: self.span,
        }
    }
}

impl UnitDecl {
    /// The same node over desugared expressions.
    pub fn desugar(self) -> (r: desugared_ast::UnitDecl)
        ensures
            r.to_term() == self.to_term(Reading::Desugared),
    {
        desugared_ast::UnitDecl {
            visibility: self.visibility,
            constness: self.constness,
            name: self.name,
            dim_type: self.dim_type,
            definition: match self.definition { Some(some) => Some(some.desugar()), None => None },
        }
    }
}

impl FieldDecl {
    /// The same node over desugared expressions.
    pub fn desugar(self) -> (r: desugared_ast::FieldDecl)
        ensures
            r.to_term() == self.to_term(Reading::Desugared),
    {
        desugared_ast::FieldDecl {
            name: self.name,
            type_ann: self.type_ann.desugar(),
        }
    }

    pub(crate) fn desugar_list(v: Vec<FieldDecl>) -> (r: Vec<desugared_ast::FieldDecl>)
        ensures
            desugared_ast::FieldDecl::terms(r) == FieldDecl::terms(v, Reading::Desugared),
    {
        let ghost all = v;
        let mut out: Vec<desugared_ast::FieldDecl> = Vec::new();
        for x in iter: v
            invariant
                iter.seq() == all@,
                out.len() == iter.index(),
                forall|j: int| 0 <= j < iter.index() ==> (#[trigger] out[j]).to_term() == all[j].to_term(
                    Reading::Desugared
                ),
        {
            assert(x == all[iter.index() as int]);
            out.push(x.desugar());
        }
        assert(desugared_ast::FieldDecl::terms(out) =~= FieldDecl::terms(all, Reading::Desugared));
        out
    }
}

impl UnionMember {
    /// The same node over desugared expressions.
    pub fn desugar(self) -> (r: desugared_ast::UnionMember)
        ensures
            r.to_term() == self.to_term(Reading::Desugared),
    {
        desugared_ast::UnionMember {
            name: self.name,
            payload: match self.payload { Some(some) => Some(FieldDecl::desugar_list(some)), None => None },
            span: self.span,
        }
    }

    pub(crate) fn desugar_list(v: Vec<UnionMember>) -> (r: Vec<desugared_ast::UnionMember>)
        ensures
            desugared_ast::UnionMember::terms(r) == UnionMember::terms(v, Reading::Desugared),
    {
        let ghost all = v;
        let mut out: Vec<desugared_ast::UnionMember> = Vec::new();
        for x in iter: v
            invariant
                iter.seq() == all@,
                out.len() == iter.index(),
                forall|j: int| 0 <= j < iter.index() ==> (#[trigger] out[j]).to_term() == all[j].to_term(
                    Reading::Desugared
                ),
        {
            assert(x == all[iter.index() as int]);
            out.push(x.desugar());
        }
        assert(desugared_ast::UnionMember::terms(out) =~= UnionMember::terms(all, Reading::Desugared));
        out
    }
}

impl TypeDeclBody {
    /// The same node over desugared expressions.
    pub fn desugar(self) -> (r: desugared_ast::TypeDeclBody)
        ensures
            r.to_term() == self.to_term(Reading::Desugared),
    {
        match self {
            TypeDeclBody::Required => desugared_ast::TypeDeclBody::Required,
            TypeDeclBody::Constructors(value) => desugared_ast::TypeDeclBody::Constructors(
                UnionMember::desugar_list(value)
            ),
        }
    }
}

impl GenericParam {
    /// The same node over desugared expressions.
    pub fn desugar(self) -> (r: desugared_ast::GenericParam)
        ensures
            r.to_term() == self.to_term(Reading::Desugared),
    {
        desugared_ast::GenericParam {
            name: self.name,
            constraint: self.constraint,
            default: match self.default { Some(some) => Some(some.desugar()), None => None },
        }
    }

    pub(crate) fn desugar_list(v: Vec<GenericParam>) -> (r: Vec<desugared_ast::GenericParam>)
        ensures
            desugared_ast::GenericParam::terms(r) == GenericParam::terms(v, Reading::Desugared),
    {
        let ghost all = v;
        let mut out: Vec<desugared_ast::GenericParam> = Vec::new();
        for x in iter: v
            invariant
                iter.seq() == all@,
                out.len() == iter.index(),
                forall|j: int| 0 <= j < iter.index() ==> (#[trigger] out[j]).to_term() == all[j].to_term(
                    Reading::Desugared
                ),
        {
            assert(x == all[iter.index() as int]);
            out.push(x.desugar());
        }
        assert(desugared_ast::GenericParam::terms(out) =~= GenericParam::terms(all, Reading::Desugared));
        out
    }
}

impl TypeDecl {
    /// The same node over desugared expressions.
    pub fn desugar(self) -> (r: desugared_ast::TypeDecl)
        ensures
            r.to_term() == self.to_term(Reading::Desugared),
    {
        desugared_ast::TypeDecl {
            visibility: self.visibility,
            name: self.name,
            generic_params: GenericParam::desugar_list(self.generic_params),
            body: self.body.desugar(),
        }
    }
}

impl IndexDeclKind {
    /// The same node over desugared expressions.
    pub fn desugar(self) -> (r: desugared_ast::IndexDeclKind)
        ensures
            r.to_term() == self.to_term(Reading::Desugared),
    {
        match self {
            IndexDeclKind::Named { variants } => desugared_ast::IndexDeclKind::Named { variants },
            IndexDeclKind::Range { start, end, step } => desugared_ast::IndexDeclKind::Range {
                start: Box::new((*start).desugar()),
                end: Box::new((*end).desugar()),
                step: Box::new((*step).desugar()),
            },
            IndexDeclKind::Linspace { start, end, points } => desugared_ast::IndexDeclKind::Linspace {
                start: Box::new((*start).desugar()),
                end: Box::new((*end).desugar()),
                points,
            },
            IndexDeclKind::RequiredNamed => desugared_ast::IndexDeclKind::RequiredNamed,
            IndexDeclKind::RequiredCoordinate { dimension } => desugared_ast::IndexDeclKind::RequiredCoordinate { dimension },
        }
    }
}

impl IndexDecl {
    /// The same node over desugared expressions.
    pub fn desugar(self) -> (r: desugared_ast::IndexDecl)
        ensures
            r.to_term() == self.to_term(Reading::Desugared),
    {
        desugared_ast::IndexDecl {
            visibility: self.visibility,
            name: self.name,
            kind: self.kind.desugar(),
        }
    }
}

impl IncludeDecl {
    /// The same node over desugared expressions.
    pub fn desugar(self) -> (r: desugared_ast::IncludeDecl)
        ensures
            r.to_term() == self.to_term(Reading::Desugared),
    {
        desugared_ast::IncludeDecl {
            path: self.path,
            param_bindings: ParamBinding::desugar_list(self.param_bindings),
            kind: self.kind,
        }
    }
}

impl AssertBody {
    /// The same node over desugared expressions.
    pub fn desugar(self) -> (r: desugared_ast::AssertBody)
        ensures
            r.to_term() == self.to_term(Reading::Desugared),
    {
        match self {
            AssertBody::Expr(value) => desugared_ast::AssertBody::Expr(value.desugar()),
            AssertBody::Tolerance { actual, expected, tolerance } => desugared_ast::AssertBody::Tolerance {
                actual: Box::new((*actual).desugar()),
                expected: Box::new((*expected).desugar()),
                tolerance: Box::new((*tolerance).desugar()),
            },
        }
    }
}

impl AssertDecl {
    /// The same node over desugared expressions.
    pub fn desugar(self) -> (r: desugared_ast::AssertDecl)
        ensures
            r.to_term() == self.to_term(Reading::Desugared),
    {
        desugared_ast::AssertDecl {
            visibility: self.visibility,
            name: self.name,
            body: self.body.desugar(),
        }
    }
}

impl PlotField {
    /// The same node over desugared expressions.
    pub fn desugar(self) -> (r: desugared_ast::PlotField)
        ensures
            r.to_term() == self.to_term(Reading::Desugared),
    {
        desugared_ast::PlotField {
            name: self.name,
            value: self.value.desugar(),
            span: self.span,
        }
    }

    pub(crate) fn desugar_list(v: Vec<PlotField>) -> (r: Vec<desugared_ast::PlotField>)
        ensures
            desugared_ast::PlotField::terms(r) == PlotField::terms(v, Reading::Desugared),
    {
        let ghost all = v;
        let mut out: Vec<desugared_ast::PlotField> = Vec::new();
        for x in iter: v
            invariant
                iter.seq() == all@,
                out.len() == iter.index(),
                forall|j: int| 0 <= j < iter.index() ==> (#[trigger] out[j]).to_term() == all[j].to_term(
                    Reading::Desugared
                ),
        {
            assert(x == all[iter.index() as int]);
            out.push(x.desugar());
        }
        assert(desugared_ast::PlotField::terms(out) =~= PlotField::terms(all, Reading::Desugared));
        out
    }
}

impl Encoding {
    /// The same node over desugared expressions.
    pub fn desugar(self) -> (r: desugared_ast::Encoding)
        ensures
            r.to_term() == self.to_term(Reading::Desugared),
    {
        desugared_ast::Encoding {
            channel: self.channel,
            channel_span: self.channel_span,
            value: self.value.desugar(),
            span: self.span,
        }
    }

    pub(crate) fn desugar_list(v: Vec<Encoding>) -> (r: Vec<desugared_ast::Encoding>)
        ensures
            desugared_ast::Encoding::terms(r) == Encoding::terms(v, Reading::Desugared),
    {
        let ghost all = v;
        let mut out: Vec<desugared_ast::Encoding> = Vec::new();
        for x in iter: v
            invariant
                iter.seq() == all@,
                out.len() == iter.index(),
                forall|j: int| 0 <= j < iter.index() ==> (#[trigger] out[j]).to_term() == all[j].to_term(
                    Reading::Desugared
                ),
        {
            assert(x == all[iter.index() as int]);
            out.push(x.desugar());
        }
        assert(desugared_ast::Encoding::terms(out) =~= Encoding::terms(all, Reading::Desugared));
        out
    }
}

impl MarkSpec {
    /// The same node over desugared expressions.
    pub fn desugar(self) -> (r: desugared_ast::MarkSpec)
        ensures
            r.to_term() == self.to_term(Reading::Desugared),
    {
        desugared_ast::MarkSpec {
            mark_type: self.mark_type,
            mark_type_span: self.mark_type_span,
            properties: PlotField::desugar_list(self.properties),
            span: self.span,
        }
    }
}

impl PlotDecl {
    /// The same node over desugared expressions.
    pub fn desugar(self) -> (r: desugared_ast::PlotDecl)
        ensures
            r.to_term() == self.to_term(Reading::Desugared),
    {
        desugared_ast::PlotDecl {
            visibility: self.visibility,
            name: self.name,
            mark: self.mark.desugar(),
            encodings: Encoding::desugar_list(self.encodings),
            properties: PlotField::desugar_list(self.properties),
        }
    }
}

impl FigureDecl {
    /// The same node over desugared expressions.
    pub fn desugar(self) -> (r: desugared_ast::FigureDecl)
        ensures
            r.to_term() == self.to_term(Reading::Desugared),
    {
        desugared_ast::FigureDecl {
            visibility: self.visibility,
            name: self.name,
            plot_names: self.plot_names,
            fields: PlotField::desugar_list(self.fields),
        }
    }
}

impl LayerDecl {
    /// The same node over desugared expressions.
    pub fn desugar(self) -> (r: desugared_ast::LayerDecl)
        ensures
            r.to_term() == self.to_term(Reading::Desugared),
    {
        desugared_ast::LayerDecl {
            visibility: self.visibility,
            name: self.name,
            plot_names: self.plot_names,
            fields: PlotField::desugar_list(self.fields),
        }
    }
}

impl ExternFnParam {
    /// The same node over desugared expressions.
    pub fn desugar(self) -> (r: desugared_ast::ExternFnParam)
        ensures
            r.to_term() == self.to_term(Reading::Desugared),
    {
        desugared_ast::ExternFnParam {
            name: self.name,
            type_ann: self.type_ann.desugar(),
        }
    }

    pub(crate) fn desugar_list(v: Vec<ExternFnParam>) -> (r: Vec<desugared_ast::ExternFnParam>)
        ensures
            desugared_ast::ExternFnParam::terms(r) == ExternFnParam::terms(v, Reading::Desugared),
    {
        let ghost all = v;
        let mut out: Vec<desugared_ast::ExternFnParam> = Vec::new();
        for x in iter: v
            invariant
                iter.seq() == all@,
                out.len() == iter.index(),
                forall|j: int| 0 <= j < iter.index() ==> (#[trigger] out[j]).to_term() == all[j].to_term(
                    Reading::Desugared
                ),
        {
            assert(x == all[iter.index() as int]);
            out.push(x.desugar());
        }
        assert(desugared_ast::ExternFnParam::terms(out) =~= ExternFnParam::terms(all, Reading::Desugared));
        out
    }
}

impl ExternFnDecl {
    /// The same node over desugared expressions.
    pub fn desugar(self) -> (r: desugared_ast::ExternFnDecl)
        ensures
            r.to_term() == self.to_term(Reading::Desugared),
    {
        desugared_ast::ExternFnDecl {
            name: self.name,
            generics: self.generics,
            params: ExternFnParam::desugar_list(self.params),
            result: self.result.desugar(),
            span: self.span,
        }
    }

    pub(crate) fn desugar_list(v: Vec<ExternFnDecl>) -> (r: Vec<desugared_ast::ExternFnDecl>)
        ensures
            desugared_ast::ExternFnDecl::terms(r) == ExternFnDecl::terms(v, Reading::Desugared),
    {
        let ghost all = v;
        let mut out: Vec<desugared_ast::ExternFnDecl> = Vec::new();
        for x in iter: v
            invariant
                iter.seq() == all@,
                out.len() == iter.index(),
                forall|j: int| 0 <= j < iter.index() ==> (#[trigger] out[j]).to_term() == all[j].to_term(
                    Reading::Desugared
                ),
        {
            assert(x == all[iter.index() as int]);
            out.push(x.desugar());
        }
        assert(desugared_ast::ExternFnDecl::terms(out) =~= ExternFnDecl::terms(all, Reading::Desugared));
        out
    }
}

impl PluginImportDecl {
    /// The same node over desugared expressions.
    pub fn desugar(self) -> (r: desugared_ast::PluginImportDecl)
        ensures
            r.to_term() == self.to_term(Reading::Desugared),
    {
        desugared_ast::PluginImportDecl {
            path: self.path,
            alias: self.alias,
            functions: ExternFnDecl::desugar_list(self.functions),
        }
    }
}

/// What a list of declarations becomes: a multi-declaration is replaced by the
/// declarations of its slots, everything else stays one declaration.
pub open(crate) spec fn flattened(v: Vec<Declaration>, n: nat) -> Seq<Term>
    decreases v, n,
{
    if n == 0 || n > v.len() {
        Seq::empty()
    } else {
        flattened(v, (n - 1) as nat) + desugared_declarations(v[n - 1])
    }
}

/// What one declaration becomes.
pub open(crate) spec fn desugared_declarations(d: Declaration) -> Seq<Term>
    decreases d,
{
    match d.kind {
        DeclKind::Sugar(RawDeclSugar::Multi(multi)) => Seq::new(
            multi.slots@.len(),
            |i: int| slot_declaration(multi, i, Reading::Desugared),
        ),
        DeclKind::Dag(dag) => seq![
            node3(
                Tag::Declaration,
                d.attributes.term(Spans::Kept),
                node1(
                    Tag::DeclDag,
                    node4(
                        Tag::DagDecl,
                        dag.visibility.term(Spans::Kept),
                        dag.name.term(Spans::Kept),
                        Term::List(flattened(dag.body, dag.body.len() as nat)),
                        at(Spans::Kept, dag.span),
                    ),
                ),
                at(Spans::Kept, d.span),
            ),
        ],
        _ => seq![d.to_term(Reading::Desugared)],
    }
}

/// Desugar a list of declarations.
pub(crate) fn convert_decls(v: Vec<Declaration>) -> (r: Vec<desugared_ast::Declaration>)
    ensures
        desugared_ast::Declaration::terms(r) == flattened(v, v.len() as nat),
    decreases v,
{
    let ghost all = v;
    let mut out: Vec<desugared_ast::Declaration> = Vec::new();
    assert(desugared_ast::Declaration::terms(out) =~= flattened(all, 0));
    for d in iter: v
        invariant
            iter.seq() == all@,
            desugared_ast::Declaration::terms(out) == flattened(all, iter.index() as nat),
    {
        assert(d == all[iter.index() as int]);
        let ghost before = out;
        let mut more = convert_decl(d);
        let ghost added = more;
        out.append(&mut more);
        assert(desugared_ast::Declaration::terms(out) =~= desugared_ast::Declaration::terms(before)
            + desugared_ast::Declaration::terms(added));
    }
    out
}

/// Desugar one declaration.
pub fn convert_decl(d: Declaration) -> (r: Vec<desugared_ast::Declaration>)
    ensures
        desugared_ast::Declaration::terms(r) == desugared_declarations(d),
    decreases d,
{
    let Declaration { attributes, kind, span } = d;
    let kind = match kind {
        DeclKind::Sugar(RawDeclSugar::Multi(multi)) => {
            let expanded = expand_multi_decl(&multi);
            let ghost all = expanded@;
            let mut out: Vec<desugared_ast::Declaration> = Vec::new();
            for slot in iter: expanded
                invariant
                    iter.seq() == all,
                    out.len() == iter.index(),
                    forall|j: int| 0 <= j < iter.index()
                        ==> (#[trigger] out[j]).to_term() == all[j].to_term(Reading::Desugared),
            {
                assert(slot == all[iter.index() as int]);
                out.push(lift_slot_decl(slot));
            }
            assert(desugared_ast::Declaration::terms(out) =~= desugared_declarations(d));
            return out;
        },
        DeclKind::Param(decl) => desugared_ast::DeclKind::Param(decl.desugar()),
        DeclKind::Node(decl) => desugared_ast::DeclKind::Node(decl.desugar()),
        DeclKind::ConstNode(decl) => desugared_ast::DeclKind::ConstNode(decl.desugar()),
        DeclKind::BaseDimension(decl) => desugared_ast::DeclKind::BaseDimension(decl),
        DeclKind::Dimension(decl) => desugared_ast::DeclKind::Dimension(decl),
        DeclKind::Unit(decl) => desugared_ast::DeclKind::Unit(decl.desugar()),
        DeclKind::Type(decl) => desugared_ast::DeclKind::Type(decl.desugar()),
        DeclKind::Index(decl) => desugared_ast::DeclKind::Index(decl.desugar()),
        DeclKind::Import(decl) => desugared_ast::DeclKind::Import(decl),
        DeclKind::PluginImport(decl) => desugared_ast::DeclKind::PluginImport(decl.desugar()),
        DeclKind::Include(decl) => desugared_ast::DeclKind::Include(decl.desugar()),
        DeclKind::Dag(dag) => {
            desugared_ast::DeclKind::Dag(
                desugared_ast::DagDecl {
                    visibility: dag.visibility,
                    name: dag.name,
                    body: convert_decls(dag.body),
                    span: dag.span,
                },
            )
        },
        DeclKind::Assert(decl) => desugared_ast::DeclKind::Assert(decl.desugar()),
        DeclKind::Plot(decl) => desugared_ast::DeclKind::Plot(decl.desugar()),
        DeclKind::Figure(decl) => desugared_ast::DeclKind::Figure(decl.desugar()),
        DeclKind::Layer(decl) => desugared_ast::DeclKind::Layer(decl.desugar()),
    };
    let mut out: Vec<desugared_ast::Declaration> = Vec::new();
    out.push(desugared_ast::Declaration { attributes, kind, span });
    assert(desugared_ast::Declaration::terms(out) =~= desugared_declarations(d));
    out
}

/// Desugar the declaration of one slot.
fn lift_slot_decl(d: ExpandedSlotDecl) -> (r: desugared_ast::Declaration)
    ensures
        r.to_term() == d.to_term(Reading::Desugared),
{
    let (kind, span) = match d {
        ExpandedSlotDecl::Param(decl, span) => (desugared_ast::DeclKind::Param(decl.desugar()), span),
        ExpandedSlotDecl::Node(decl, span) => (desugared_ast::DeclKind::Node(decl.desugar()), span),
        ExpandedSlotDecl::ConstNode(decl, span) => (desugared_ast::DeclKind::ConstNode(decl.desugar()), span),
    };
    let r = desugared_ast::Declaration { attributes: Vec::new(), kind, span };
    assert(seq_terms(r.attributes@, Spans::Kept) =~= Seq::empty());
    r
}

impl File {
    /// Desugar a whole file.
    pub fn desugar(self) -> (r: desugared_ast::File)
        ensures
            desugared_ast::Declaration::terms(r.declarations) == flattened(
                self.declarations,
                self.declarations.len() as nat,
            ),
    {
        desugared_ast::File { declarations: convert_decls(self.declarations) }
    }
}

} // verus!
