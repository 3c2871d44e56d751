//! Which trees have parts that did not resolve.

use crate::hir::tree::{Expr, ExprKind, FieldInit, IndexArg, MapEntry, MapEntryKey, MatchArm, ParamBinding};
use vstd::prelude::*;

verus! {

impl Expr {
    /// Whether some part of the expression did not resolve.
    pub open spec fn has_error(self) -> bool
        decreases self,
    {
        self.kind.has_error()
    }

    pub open spec fn any_error(v: Vec<Expr>) -> bool
        decreases v,
    {
        exists|i: int| 0 <= i < v.len() && (#[trigger] v[i]).has_error()
    }

    pub proof fn lemma_push(previous: Vec<Expr>, item: Expr, v: Vec<Expr>)
        requires
            v@ == previous@.push(item),
        ensures
            Expr::terms(v) == Expr::terms(previous).push(item.to_term()),
            Expr::any_error(v) == (Expr::any_error(previous) || item.has_error()),
    {
        assert(Expr::terms(v) =~= Expr::terms(previous).push(item.to_term()));
        assert forall|j: int| 0 <= j < previous.len() implies v[j] == #[trigger] previous[j] by {}
        assert(v[previous.len() as int] == item);
    }
}

impl ExprKind {
    #[verifier::opaque]
    pub open spec fn has_error(self) -> bool
        decreases self,
    {
        match self {
            ExprKind::Error { children } => true,
            ExprKind::BinOp { op, lhs, rhs } => lhs.has_error() || rhs.has_error(),
            ExprKind::UnaryOp { op, operand } => operand.has_error(),
            ExprKind::FnCall { callee, args } => Expr::any_error(args),
            ExprKind::If { condition, then_branch, else_branch } => condition.has_error() || then_branch.has_error()
                || else_branch.has_error(),
            ExprKind::Convert { expr, target } => expr.has_error(),
            ExprKind::DisplayTimezone { expr, timezone } => expr.has_error(),
            ExprKind::FieldAccess { expr, field } => expr.has_error(),
            ExprKind::ConstructorCall { callee, generic_args, fields } => FieldInit::any_error(fields),
            ExprKind::MapLiteral { entries } => MapEntry::any_error(entries),
            ExprKind::ForComp { bindings, body } => body.has_error(),
            ExprKind::IndexAccess { expr, args } => expr.has_error() || args.first.has_error() || IndexArg::any_error(
                args.rest,
            ),
            ExprKind::Scan { source, init, acc, val, body } => source.has_error() || init.has_error()
                || body.has_error(),
            ExprKind::Unfold { recurrence, init, body } => init.has_error() || body.has_error(),
            ExprKind::KeyForm { kind, axis, axis_span, arg } => arg.has_error(),
            ExprKind::Match { scrutinee, arms } => scrutinee.has_error() || MatchArm::any_error(arms),
            ExprKind::DagCall { target, args, output } => ParamBinding::any_error(args),
            _ => false,
        }
    }
}

impl FieldInit {
    pub open spec fn has_error(self) -> bool
        decreases self,
    {
        self.value.has_error()
    }

    pub open spec fn any_error(v: Vec<FieldInit>) -> bool
        decreases v,
    {
        exists|i: int| 0 <= i < v.len() && (#[trigger] v[i]).has_error()
    }

    pub proof fn lemma_push(previous: Vec<FieldInit>, item: FieldInit, v: Vec<FieldInit>)
        requires
            v@ == previous@.push(item),
        ensures
            FieldInit::terms(v) == FieldInit::terms(previous).push(item.to_term()),
            FieldInit::any_error(v) == (FieldInit::any_error(previous) || item.has_error()),
    {
        assert(FieldInit::terms(v) =~= FieldInit::terms(previous).push(item.to_term()));
        assert forall|j: int| 0 <= j < previous.len() implies v[j] == #[trigger] previous[j] by {}
        assert(v[previous.len() as int] == item);
    }
}

impl ParamBinding {
    pub open spec fn has_error(self) -> bool
        decreases self,
    {
        self.value.has_error()
    }

    pub open spec fn any_error(v: Vec<ParamBinding>) -> bool
        decreases v,
    {
        exists|i: int| 0 <= i < v.len() && (#[trigger] v[i]).has_error()
    }

    pub proof fn lemma_push(previous: Vec<ParamBinding>, item: ParamBinding, v: Vec<ParamBinding>)
        requires
            v@ == previous@.push(item),
        ensures
            ParamBinding::terms(v) == ParamBinding::terms(previous).push(item.to_term()),
            ParamBinding::any_error(v) == (ParamBinding::any_error(previous) || item.has_error()),
    {
        assert(ParamBinding::terms(v) =~= ParamBinding::terms(previous).push(item.to_term()));
        assert forall|j: int| 0 <= j < previous.len() implies v[j] == #[trigger] previous[j] by {}
        assert(v[previous.len() as int] == item);
    }
}

impl MatchArm {
    pub open spec fn has_error(self) -> bool
        decreases self,
    {
        self.body.has_error()
    }

    pub open spec fn any_error(v: Vec<MatchArm>) -> bool
        decreases v,
    {
        exists|i: int| 0 <= i < v.len() && (#[trigger] v[i]).has_error()
    }

    pub proof fn lemma_push(previous: Vec<MatchArm>, item: MatchArm, v: Vec<MatchArm>)
        requires
            v@ == previous@.push(item),
        ensures
            MatchArm::terms(v) == MatchArm::terms(previous).push(item.to_term()),
            MatchArm::any_error(v) == (MatchArm::any_error(previous) || item.has_error()),
    {
        assert(MatchArm::terms(v) =~= MatchArm::terms(previous).push(item.to_term()));
        assert forall|j: int| 0 <= j < previous.len() implies v[j] == #[trigger] previous[j] by {}
        assert(v[previous.len() as int] == item);
    }
}

impl MapEntry {
    pub open spec fn has_error(self) -> bool
        decreases self,
    {
        self.keys.first.has_error() || MapEntryKey::any_error(self.keys.rest) || self.value.has_error()
    }

    pub open spec fn any_error(v: Vec<MapEntry>) -> bool
        decreases v,
    {
        exists|i: int| 0 <= i < v.len() && (#[trigger] v[i]).has_error()
    }

    pub proof fn lemma_push(previous: Vec<MapEntry>, item: MapEntry, v: Vec<MapEntry>)
        requires
            v@ == previous@.push(item),
        ensures
            MapEntry::terms(v) == MapEntry::terms(previous).push(item.to_term()),
            MapEntry::any_error(v) == (MapEntry::any_error(previous) || item.has_error()),
    {
        assert(MapEntry::terms(v) =~= MapEntry::terms(previous).push(item.to_term()));
        assert forall|j: int| 0 <= j < previous.len() implies v[j] == #[trigger] previous[j] by {}
        assert(v[previous.len() as int] == item);
    }
}

impl MapEntryKey {
    pub open spec fn has_error(self) -> bool
        decreases self,
    {
        match self {
            MapEntryKey::Expression { axis, expr } => expr.has_error(),
            _ => false,
        }
    }

    pub open spec fn any_error(v: Vec<MapEntryKey>) -> bool
        decreases v,
    {
        exists|i: int| 0 <= i < v.len() && (#[trigger] v[i]).has_error()
    }

    pub proof fn lemma_push(previous: Vec<MapEntryKey>, item: MapEntryKey, v: Vec<MapEntryKey>)
        requires
            v@ == previous@.push(item),
        ensures
            MapEntryKey::terms(v) == MapEntryKey::terms(previous).push(item.to_term()),
            MapEntryKey::any_error(v) == (MapEntryKey::any_error(previous) || item.has_error()),
    {
        assert(MapEntryKey::terms(v) =~= MapEntryKey::terms(previous).push(item.to_term()));
        assert forall|j: int| 0 <= j < previous.len() implies v[j] == #[trigger] previous[j] by {}
        assert(v[previous.len() as int] == item);
    }
}

impl IndexArg {
    pub open spec fn has_error(self) -> bool
        decreases self,
    {
        match self {
            IndexArg::Expr(expr) => expr.has_error(),
            _ => false,
        }
    }

    pub open spec fn any_error(v: Vec<IndexArg>) -> bool
        decreases v,
    {
        exists|i: int| 0 <= i < v.len() && (#[trigger] v[i]).has_error()
    }

    pub proof fn lemma_push(previous: Vec<IndexArg>, item: IndexArg, v: Vec<IndexArg>)
        requires
            v@ == previous@.push(item),
        ensures
            IndexArg::terms(v) == IndexArg::terms(previous).push(item.to_term()),
            IndexArg::any_error(v) == (IndexArg::any_error(previous) || item.has_error()),
    {
        assert(IndexArg::terms(v) =~= IndexArg::terms(previous).push(item.to_term()));
        assert forall|j: int| 0 <= j < previous.len() implies v[j] == #[trigger] previous[j] by {}
        assert(v[previous.len() as int] == item);
    }
}

} // verus!
