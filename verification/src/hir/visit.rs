//! Walking resolved expressions.

use crate::hir::name_order::{comes_before, in_order, law_names_are_ordered, name_before, owner_bytes};
use crate::hir::tree::{
    DagId, Expr, ExprKind, ExternFnRef, FieldInit, FunctionRef, IndexArg, MapEntry, MapEntryKey, MatchArm,
    ParamBinding, ResolvedDeclName,
};
use crate::hir::tree::ConstRef;
use crate::syntax::span::Span;
use crate::syntax::term::{DeepClone, Spans, Syntax, Term};
use vstd::prelude::*;

verus! {

/// The nodes of an expression: first the node itself, then those of its
/// sub-expressions from left to right.
pub open spec fn preorder(e: Expr) -> Seq<Expr>
    decreases e,
{
    seq![e] + match e.kind {
        ExprKind::Error { children } => exprs_preorder(children, children.len() as nat),
        ExprKind::BinOp { op, lhs, rhs } => preorder(*lhs) + preorder(*rhs),
        ExprKind::UnaryOp { op, operand } => preorder(*operand),
        ExprKind::Convert { expr, target } => preorder(*expr),
        ExprKind::DisplayTimezone { expr, timezone } => preorder(*expr),
        ExprKind::FieldAccess { expr, field } => preorder(*expr),
        ExprKind::FnCall { callee, args } => exprs_preorder(args, args.len() as nat),
        ExprKind::If { condition, then_branch, else_branch } => preorder(*condition) + preorder(*then_branch)
            + preorder(*else_branch),
        ExprKind::ConstructorCall { callee, generic_args, fields } => fields_preorder(fields, fields.len() as nat),
        ExprKind::MapLiteral { entries } => entries_preorder(entries, entries.len() as nat),
        ExprKind::ForComp { bindings, body } => preorder(*body),
        ExprKind::IndexAccess { expr, args } => preorder(*expr) + arg_preorder(*args.first) + args_preorder(
            args.rest,
            args.rest.len() as nat,
        ),
        ExprKind::Scan { source, init, acc, val, body } => preorder(*source) + preorder(*init) + preorder(*body),
        ExprKind::Unfold { recurrence, init, body } => preorder(*init) + preorder(*body),
        ExprKind::KeyForm { kind, axis, axis_span, arg } => preorder(*arg),
        ExprKind::Match { scrutinee, arms } => preorder(*scrutinee) + arms_preorder(arms, arms.len() as nat),
        ExprKind::DagCall { target, args, output } => bindings_preorder(args, args.len() as nat),
        _ => Seq::empty(),
    }
}

/// The nodes of the first `n` expressions of a list.
pub open spec fn exprs_preorder(v: Vec<Expr>, n: nat) -> Seq<Expr>
    decreases v, n,
{
    if n == 0 || n > v.len() {
        Seq::empty()
    } else {
        exprs_preorder(v, (n - 1) as nat) + preorder(v[n - 1])
    }
}

pub open spec fn fields_preorder(v: Vec<FieldInit>, n: nat) -> Seq<Expr>
    decreases v, n,
{
    if n == 0 || n > v.len() {
        Seq::empty()
    } else {
        fields_preorder(v, (n - 1) as nat) + preorder(v[n - 1].value)
    }
}

pub open spec fn arms_preorder(v: Vec<MatchArm>, n: nat) -> Seq<Expr>
    decreases v, n,
{
    if n == 0 || n > v.len() {
        Seq::empty()
    } else {
        arms_preorder(v, (n - 1) as nat) + preorder(v[n - 1].body)
    }
}

pub open spec fn bindings_preorder(v: Vec<ParamBinding>, n: nat) -> Seq<Expr>
    decreases v, n,
{
    if n == 0 || n > v.len() {
        Seq::empty()
    } else {
        bindings_preorder(v, (n - 1) as nat) + preorder(v[n - 1].value)
    }
}

/// The nodes of an index argument: those of its expression, if it is one.
pub open spec fn arg_preorder(arg: IndexArg) -> Seq<Expr>
    decreases arg,
{
    match arg {
        IndexArg::Expr(e) => preorder(*e),
        _ => Seq::empty(),
    }
}

pub open spec fn args_preorder(v: Vec<IndexArg>, n: nat) -> Seq<Expr>
    decreases v, n,
{
    if n == 0 || n > v.len() {
        Seq::empty()
    } else {
        args_preorder(v, (n - 1) as nat) + arg_preorder(v[n - 1])
    }
}

/// The nodes of a map key: those of its expression, if it is one.
pub open spec fn key_preorder(key: MapEntryKey) -> Seq<Expr>
    decreases key,
{
    match key {
        MapEntryKey::Expression { axis, expr } => preorder(*expr),
        _ => Seq::empty(),
    }
}

pub open spec fn keys_preorder(v: Vec<MapEntryKey>, n: nat) -> Seq<Expr>
    decreases v, n,
{
    if n == 0 || n > v.len() {
        Seq::empty()
    } else {
        keys_preorder(v, (n - 1) as nat) + key_preorder(v[n - 1])
    }
}

/// The nodes of a map entry: those of its keys, then those of its value.
pub open spec fn entry_preorder(entry: MapEntry) -> Seq<Expr>
    decreases entry,
{
    key_preorder(*entry.keys.first) + keys_preorder(entry.keys.rest, entry.keys.rest.len() as nat) + preorder(
        entry.value,
    )
}

pub open spec fn entries_preorder(v: Vec<MapEntry>, n: nat) -> Seq<Expr>
    decreases v, n,
{
    if n == 0 || n > v.len() {
        Seq::empty()
    } else {
        entries_preorder(v, (n - 1) as nat) + entry_preorder(v[n - 1])
    }
}

/// The nodes behind some references.
pub open spec fn nodes(v: Seq<&Expr>) -> Seq<Expr> {
    Seq::new(v.len(), |i: int| *v[i])
}

/// Every node of an expression, in the order of `preorder`.
pub fn visit_expr(expr: &Expr) -> (r: Vec<&Expr>)
    ensures
        nodes(r@) == preorder(*expr),
{
    let mut out: Vec<&Expr> = Vec::new();
    visit_expr_inner(expr, &mut out);
    assert(nodes(Seq::empty()) + preorder(*expr) =~= preorder(*expr));
    out
}

fn visit_exprs<'a>(v: &'a Vec<Expr>, out: &mut Vec<&'a Expr>)
    ensures
        nodes(final(out)@) == nodes(old(out)@) + exprs_preorder(*v, v.len() as nat),
    decreases v,
{
    let ghost start = nodes(out@);
    assert(start =~= start + exprs_preorder(*v, 0));
    for i in 0..v.len()
        invariant
            nodes(out@) == start + exprs_preorder(*v, i as nat),
    {
        visit_expr_inner(&v[i], out);
        assert(nodes(out@) =~= start + exprs_preorder(*v, (i + 1) as nat));
    }
}

fn visit_fields<'a>(v: &'a Vec<FieldInit>, out: &mut Vec<&'a Expr>)
    ensures
        nodes(final(out)@) == nodes(old(out)@) + fields_preorder(*v, v.len() as nat),
    decreases v,
{
    let ghost start = nodes(out@);
    assert(start =~= start + fields_preorder(*v, 0));
    for i in 0..v.len()
        invariant
            nodes(out@) == start + fields_preorder(*v, i as nat),
    {
        visit_expr_inner(&v[i].value, out);
        assert(nodes(out@) =~= start + fields_preorder(*v, (i + 1) as nat));
    }
}

fn visit_arms<'a>(v: &'a Vec<MatchArm>, out: &mut Vec<&'a Expr>)
    ensures
        nodes(final(out)@) == nodes(old(out)@) + arms_preorder(*v, v.len() as nat),
    decreases v,
{
    let ghost start = nodes(out@);
    assert(start =~= start + arms_preorder(*v, 0));
    for i in 0..v.len()
        invariant
            nodes(out@) == start + arms_preorder(*v, i as nat),
    {
        visit_expr_inner(&v[i].body, out);
        assert(nodes(out@) =~= start + arms_preorder(*v, (i + 1) as nat));
    }
}

fn visit_bindings<'a>(v: &'a Vec<ParamBinding>, out: &mut Vec<&'a Expr>)
    ensures
        nodes(final(out)@) == nodes(old(out)@) + bindings_preorder(*v, v.len() as nat),
    decreases v,
{
    let ghost start = nodes(out@);
    assert(start =~= start + bindings_preorder(*v, 0));
    for i in 0..v.len()
        invariant
            nodes(out@) == start + bindings_preorder(*v, i as nat),
    {
        visit_expr_inner(&v[i].value, out);
        assert(nodes(out@) =~= start + bindings_preorder(*v, (i + 1) as nat));
    }
}

fn visit_arg<'a>(arg: &'a IndexArg, out: &mut Vec<&'a Expr>)
    ensures
        nodes(final(out)@) == nodes(old(out)@) + arg_preorder(*arg),
    decreases arg,
{
    let ghost start = nodes(out@);
    match arg {
        IndexArg::Expr(e) => visit_expr_inner(e, out),
        _ => {
            assert(start =~= start + arg_preorder(*arg));
        },
    }
}

fn visit_args<'a>(v: &'a Vec<IndexArg>, out: &mut Vec<&'a Expr>)
    ensures
        nodes(final(out)@) == nodes(old(out)@) + args_preorder(*v, v.len() as nat),
    decreases v,
{
    let ghost start = nodes(out@);
    assert(start =~= start + args_preorder(*v, 0));
    for i in 0..v.len()
        invariant
            nodes(out@) == start + args_preorder(*v, i as nat),
    {
        visit_arg(&v[i], out);
        assert(nodes(out@) =~= start + args_preorder(*v, (i + 1) as nat));
    }
}

fn visit_key<'a>(key: &'a MapEntryKey, out: &mut Vec<&'a Expr>)
    ensures
        nodes(final(out)@) == nodes(old(out)@) + key_preorder(*key),
    decreases key,
{
    let ghost start = nodes(out@);
    match key {
        MapEntryKey::Expression { axis: _, expr } => visit_expr_inner(expr, out),
        _ => {
            assert(start =~= start + key_preorder(*key));
        },
    }
}

fn visit_keys<'a>(v: &'a Vec<MapEntryKey>, out: &mut Vec<&'a Expr>)
    ensures
        nodes(final(out)@) == nodes(old(out)@) + keys_preorder(*v, v.len() as nat),
    decreases v,
{
    let ghost start = nodes(out@);
    assert(start =~= start + keys_preorder(*v, 0));
    for i in 0..v.len()
        invariant
            nodes(out@) == start + keys_preorder(*v, i as nat),
    {
        visit_key(&v[i], out);
        assert(nodes(out@) =~= start + keys_preorder(*v, (i + 1) as nat));
    }
}

fn visit_entry<'a>(entry: &'a MapEntry, out: &mut Vec<&'a Expr>)
    ensures
        nodes(final(out)@) == nodes(old(out)@) + entry_preorder(*entry),
    decreases entry,
{
    let ghost start = nodes(out@);
    visit_key(&entry.keys.first, out);
    visit_keys(&entry.keys.rest, out);
    visit_expr_inner(&entry.value, out);
    assert(nodes(out@) =~= start + entry_preorder(*entry));
}

fn visit_entries<'a>(v: &'a Vec<MapEntry>, out: &mut Vec<&'a Expr>)
    ensures
        nodes(final(out)@) == nodes(old(out)@) + entries_preorder(*v, v.len() as nat),
    decreases v,
{
    let ghost start = nodes(out@);
    assert(start =~= start + entries_preorder(*v, 0));
    for i in 0..v.len()
        invariant
            nodes(out@) == start + entries_preorder(*v, i as nat),
    {
        visit_entry(&v[i], out);
        assert(nodes(out@) =~= start + entries_preorder(*v, (i + 1) as nat));
    }
}

/// Append the nodes of an expression.
fn visit_expr_inner<'a>(expr: &'a Expr, out: &mut Vec<&'a Expr>)
    ensures
        nodes(final(out)@) == nodes(old(out)@) + preorder(*expr),
    decreases expr,
{
    let ghost start = nodes(out@);
    out.push(expr);
    assert(nodes(out@) =~= start.push(*expr));
    match &expr.kind {
        ExprKind::Error { children } => visit_exprs(children, out),
        ExprKind::BinOp { op: _, lhs, rhs } => {
            visit_expr_inner(lhs, out);
            visit_expr_inner(rhs, out);
        },
        ExprKind::UnaryOp { op: _, operand } => visit_expr_inner(operand, out),
        ExprKind::Convert { expr: inner, target: _ } => visit_expr_inner(inner, out),
        ExprKind::DisplayTimezone { expr: inner, timezone: _ } => visit_expr_inner(inner, out),
        ExprKind::FieldAccess { expr: inner, field: _ } => visit_expr_inner(inner, out),
        ExprKind::FnCall { callee: _, args } => visit_exprs(args, out),
        ExprKind::If { condition, then_branch, else_branch } => {
            visit_expr_inner(condition, out);
            visit_expr_inner(then_branch, out);
            visit_expr_inner(else_branch, out);
        },
        ExprKind::ConstructorCall { callee: _, generic_args: _, fields } => visit_fields(fields, out),
        ExprKind::MapLiteral { entries } => visit_entries(entries, out),
        ExprKind::ForComp { bindings: _, body } => visit_expr_inner(body, out),
        ExprKind::IndexAccess { expr: inner, args } => {
            visit_expr_inner(inner, out);
            visit_arg(&args.first, out);
            visit_args(&args.rest, out);
        },
        ExprKind::Scan { source, init, acc: _, val: _, body } => {
            visit_expr_inner(source, out);
            visit_expr_inner(init, out);
            visit_expr_inner(body, out);
        },
        ExprKind::Unfold { recurrence: _, init, body } => {
            visit_expr_inner(init, out);
            visit_expr_inner(body, out);
        },
        ExprKind::KeyForm { kind: _, axis: _, axis_span: _, arg } => visit_expr_inner(arg, out),
        ExprKind::Match { scrutinee, arms } => {
            visit_expr_inner(scrutinee, out);
            visit_arms(arms, out);
        },
        ExprKind::DagCall { target: _, args, output: _ } => visit_bindings(args, out),
        _ => {},
    }
    assert(nodes(out@) =~= start + preorder(*expr));
}

/// The declarations that an expression depends on, each once.
#[derive(Debug)]
pub struct ExprDependencies {
    pub graph_refs: Vec<ResolvedDeclName>,
    pub const_refs: Vec<ResolvedDeclName>,
}

/// Whether a name is in a list.
pub open spec fn listed(v: Seq<ResolvedDeclName>, name: Term) -> bool {
    exists|i: int| 0 <= i < v.len() && (#[trigger] v[i]).term(Spans::Kept) == name
}

/// Whether no name is in a list twice.
pub open spec fn distinct(v: Seq<ResolvedDeclName>) -> bool {
    forall|i: int, j: int|
        0 <= i < j < v.len() ==> (#[trigger] v[i]).term(Spans::Kept) != (#[trigger] v[j]).term(Spans::Kept)
}

/// The declaration that a node reads from the graph, if it reads one.
pub open spec fn graph_target(e: Expr) -> Option<Term> {
    match e.kind {
        ExprKind::GraphRef(target) => Some(target.value.term(Spans::Kept)),
        _ => None,
    }
}

/// The constant declaration that a node names, if it names one.
pub open spec fn const_target(e: Expr) -> Option<Term> {
    match e.kind {
        ExprKind::ConstRef(target) => match target.value {
            ConstRef::Decl(resolved) => Some(resolved.term(Spans::Kept)),
            _ => None,
        },
        _ => None,
    }
}

/// Whether one of the nodes reads the declaration from the graph.
pub open spec fn reads(all: Seq<Expr>, name: Term) -> bool {
    exists|i: int| 0 <= i < all.len() && graph_target(#[trigger] all[i]) == Some(name)
}

/// Whether one of the nodes names the constant declaration.
pub open spec fn names_constant(all: Seq<Expr>, name: Term) -> bool {
    exists|i: int| 0 <= i < all.len() && const_target(#[trigger] all[i]) == Some(name)
}

/// Whether both names are the same.
pub fn same_decl(a: &ResolvedDeclName, b: &ResolvedDeclName) -> (r: bool)
    ensures
        r == (a.term(Spans::Kept) == b.term(Spans::Kept)),
{
    a.name.atom.same(&b.name.atom) && same_dag(&a.owner, &b.owner)
}

/// Whether both modules are the same.
pub fn same_dag(a: &DagId, b: &DagId) -> (r: bool)
    ensures
        r == (a.term(Spans::Kept) == b.term(Spans::Kept)),
        r == (owner_of(*a) == owner_of(*b)),
{
    let ghost mine = crate::syntax::term::seq_terms(a.segments@, Spans::Kept);
    let ghost theirs = crate::syntax::term::seq_terms(b.segments@, Spans::Kept);
    if a.segments.len() != b.segments.len() {
        assert(mine.len() != theirs.len());
        assert(owner_of(*a).len() != owner_of(*b).len());
        return false;
    }
    for i in 0..a.segments.len()
        invariant
            a.segments@.len() == b.segments@.len(),
            mine == crate::syntax::term::seq_terms(a.segments@, Spans::Kept),
            theirs == crate::syntax::term::seq_terms(b.segments@, Spans::Kept),
            forall|j: int| 0 <= j < i ==> a.segments@[j]@ == b.segments@[j]@,
    {
        if a.segments[i] != b.segments[i] {
            assert(mine[i as int] != theirs[i as int]);
            assert(owner_of(*a)[i as int] != owner_of(*b)[i as int]);
            return false;
        }
    }
    assert(mine =~= theirs);
    assert(owner_of(*a) =~= owner_of(*b));
    true
}

/// The segments of a module's name.
pub open spec fn owner_of(id: DagId) -> Seq<Seq<char>> {
    Seq::new(id.segments@.len(), |i: int| id.segments@[i]@)
}

/// Add a name to a list in its place, unless the list holds it.
fn insert_name(v: &mut Vec<ResolvedDeclName>, name: &ResolvedDeclName)
    requires
        distinct(old(v)@),
        in_order(old(v)@),
    ensures
        distinct(final(v)@),
        in_order(final(v)@),
        forall|t: Term| #[trigger] listed(final(v)@, t) == (listed(old(v)@, t) || t == name.term(Spans::Kept)),
{
    let ghost before = v@;
    let ghost wanted = name.term(Spans::Kept);
    let n: usize = v.len();
    let mut place: usize = n;
    for i in 0..n
        invariant
            n == before.len(),
            v@ == before,
            before == old(v)@,
            distinct(before),
            in_order(before),
            wanted == name.term(Spans::Kept),
            forall|j: int| 0 <= j < i ==> (#[trigger] v@[j]).term(Spans::Kept) != wanted,
            place <= n,
            forall|j: int| 0 <= j < i && j < place ==> !name_before(*name, #[trigger] v@[j]),
            place < n ==> place < i && name_before(*name, v@[place as int]),
    {
        if same_decl(&v[i], name) {
            assert(listed(before, wanted)) by {
                assert(before[i as int].term(Spans::Kept) == wanted);
            }
            return;
        }
        if place == n && comes_before(name, &v[i]) {
            place = i;
        }
    }
    let copy = name.deep_clone();
    v.insert(place, copy);
    proof {
        lemma_same_order(*name, copy);
        assert(v@ == before.insert(place as int, copy));
        assert forall|i: int, j: int| 0 <= i < j < v@.len() implies !name_before(#[trigger] v@[j], #[trigger] v@[i]) by {
            let a = if i < place { i } else { i - 1 };
            let b = if j < place { j } else { j - 1 };
            if j == place {
                assert(v@[i] == before[a]);
            } else if i == place {
                assert(v@[j] == before[b]);
                law_names_are_ordered(before[b], *name, before[place as int]);
                law_names_are_ordered(*name, before[b], *name);
            } else {
                assert(v@[i] == before[a] && v@[j] == before[b]);
            }
        }
        assert forall|i: int, j: int| 0 <= i < j < v@.len() implies (#[trigger] v@[i]).term(Spans::Kept) != (
        #[trigger] v@[j]).term(Spans::Kept) by {
            let a = if i < place { i } else { i - 1 };
            let b = if j < place { j } else { j - 1 };
            if j == place {
                assert(v@[i] == before[a]);
            } else if i == place {
                assert(v@[j] == before[b]);
            } else {
                assert(v@[i] == before[a] && v@[j] == before[b]);
            }
        }
        assert forall|t: Term| #[trigger] listed(v@, t) == (listed(before, t) || t == wanted) by {
            if listed(before, t) {
                let i = choose|i: int| 0 <= i < before.len() && (#[trigger] before[i]).term(Spans::Kept) == t;
                assert(v@[if i < place { i } else { i + 1 }].term(Spans::Kept) == t);
            }
            if t == wanted {
                assert(v@[place as int].term(Spans::Kept) == t);
            }
            if listed(v@, t) {
                let i = choose|i: int| 0 <= i < v@.len() && (#[trigger] v@[i]).term(Spans::Kept) == t;
                if i != place {
                    assert(before[if i < place { i } else { i - 1 }].term(Spans::Kept) == t);
                }
            }
        }
    }
}

/// A copy of a name stands where the name stands.
proof fn lemma_same_order(a: ResolvedDeclName, b: ResolvedDeclName)
    requires
        a.term(Spans::Kept) == b.term(Spans::Kept),
    ensures
        forall|c: ResolvedDeclName| #[trigger] name_before(a, c) == name_before(b, c),
        forall|c: ResolvedDeclName| #[trigger] name_before(c, a) == name_before(c, b),
{
    let s = crate::syntax::term::seq_terms(a.owner.segments@, Spans::Kept);
    let t = crate::syntax::term::seq_terms(b.owner.segments@, Spans::Kept);
    assert(s == t);
    assert(s.len() == t.len());
    assert forall|i: int| 0 <= i < s.len() implies a.owner.segments@[i]@ == b.owner.segments@[i]@ by {
        assert(s[i] == t[i]);
    }
    assert(owner_bytes(a.owner) =~= owner_bytes(b.owner));
}

/// The declarations that an expression depends on: those that some node of it
/// names, and no others, in order.
pub fn collect_expr_dependencies(expr: &Expr) -> (r: ExprDependencies)
    ensures
        distinct(r.graph_refs@),
        distinct(r.const_refs@),
        in_order(r.graph_refs@),
        in_order(r.const_refs@),
        forall|t: Term| #[trigger] listed(r.graph_refs@, t) == reads(preorder(*expr), t),
        forall|t: Term| #[trigger] listed(r.const_refs@, t) == names_constant(preorder(*expr), t),
{
    let mut graph_refs: Vec<ResolvedDeclName> = Vec::new();
    let mut const_refs: Vec<ResolvedDeclName> = Vec::new();
    let all = visit_expr(expr);
    let ghost list = preorder(*expr);
    for i in 0..all.len()
        invariant
            nodes(all@) == list,
            list == preorder(*expr),
            distinct(graph_refs@),
            distinct(const_refs@),
            in_order(graph_refs@),
            in_order(const_refs@),
            forall|t: Term| #[trigger] listed(graph_refs@, t) == reads(list.take(i as int), t),
            forall|t: Term| #[trigger] listed(const_refs@, t) == names_constant(list.take(i as int), t),
    {
        let node = all[i];
        assert(*node == list[i as int]) by {
            assert(nodes(all@)[i as int] == *all@[i as int]);
        }
        proof {
            lemma_one_more(list, i as int);
        }
        match &node.kind {
            ExprKind::GraphRef(target) => insert_name(&mut graph_refs, &target.value),
            ExprKind::ConstRef(target) => match &target.value {
                ConstRef::Decl(resolved) => insert_name(&mut const_refs, resolved),
                _ => {},
            },
            _ => {},
        }
    }
    assert(list.take(list.len() as int) =~= list);
    ExprDependencies { graph_refs, const_refs }
}

proof fn lemma_one_more(list: Seq<Expr>, i: int)
    requires
        0 <= i < list.len(),
    ensures
        forall|t: Term|
            #[trigger] reads(list.take(i + 1), t) == (reads(list.take(i), t) || graph_target(list[i]) == Some(t)),
        forall|t: Term|
            #[trigger] names_constant(
                list.take(i + 1),
                t,
            ) == (names_constant(list.take(i), t) || const_target(list[i])
                == Some(t)),
{
    let more = list.take(i + 1);
    let less = list.take(i);
    assert forall|t: Term|
        #[trigger] reads(more, t) == (reads(less, t) || graph_target(list[i]) == Some(t)) by {
        if reads(less, t) {
            let j = choose|j: int| 0 <= j < less.len() && graph_target(#[trigger] less[j]) == Some(t);
            assert(more[j] == less[j]);
        }
        if graph_target(list[i]) == Some(t) {
            assert(more[i] == list[i]);
        }
        if reads(more, t) {
            let j = choose|j: int| 0 <= j < more.len() && graph_target(#[trigger] more[j]) == Some(t);
            if j < i {
                assert(less[j] == more[j]);
            }
        }
    }
    assert forall|t: Term|
        #[trigger] names_constant(more, t) == (names_constant(less, t) || const_target(list[i]) == Some(t)) by {
        if names_constant(less, t) {
            let j = choose|j: int| 0 <= j < less.len() && const_target(#[trigger] less[j]) == Some(t);
            assert(more[j] == less[j]);
        }
        if const_target(list[i]) == Some(t) {
            assert(more[i] == list[i]);
        }
        if names_constant(more, t) {
            let j = choose|j: int| 0 <= j < more.len() && const_target(#[trigger] more[j]) == Some(t);
            if j < i {
                assert(less[j] == more[j]);
            }
        }
    }
}

/// Whether a node is an inline DAG call.
pub open spec fn is_dag_call(e: Expr) -> bool {
    e.kind is DagCall
}

/// The first inline DAG call in an expression: its target and where it stands.
pub fn find_dag_call(expr: &Expr) -> (r: Option<(DagId, Span)>)
    ensures
        match r {
            Some((target, span)) => exists|i: int|
                {
                    &&& 0 <= i < preorder(*expr).len()
                    &&& is_dag_call(#[trigger] preorder(*expr)[i])
                    &&& preorder(*expr)[i].kind->DagCall_target.value.term(Spans::Kept) == target.term(Spans::Kept)
                    &&& preorder(*expr)[i].span == span
                    &&& forall|j: int| 0 <= j < i ==> !is_dag_call(#[trigger] preorder(*expr)[j])
                },
            None => forall|j: int| 0 <= j < preorder(*expr).len() ==> !is_dag_call(#[trigger] preorder(*expr)[j]),
        },
{
    let all = visit_expr(expr);
    let ghost list = preorder(*expr);
    for i in 0..all.len()
        invariant
            nodes(all@) == list,
            list == preorder(*expr),
            forall|j: int| 0 <= j < i ==> !is_dag_call(#[trigger] list[j]),
    {
        let node = all[i];
        assert(*node == list[i as int]) by {
            assert(nodes(all@)[i as int] == *all@[i as int]);
        }
        match &node.kind {
            ExprKind::DagCall { target, args: _, output: _ } => {
                let r = Some((target.value.deep_clone(), node.span));
                assert(is_dag_call(preorder(*expr)[i as int]));
                return r;
            },
            _ => {},
        }
    }
    None
}

/// The plugin function that a node calls, if it calls one, and where.
pub open spec fn extern_call(e: Expr) -> Option<(ExternFnRef, Span)> {
    match e.kind {
        ExprKind::FnCall { callee, args } => match callee.value {
            FunctionRef::External(target) => Some((target, callee.span)),
            _ => None,
        },
        _ => None,
    }
}

/// The first call of a plugin function in an expression.
pub fn find_extern_call(expr: &Expr) -> (r: Option<(&ExternFnRef, Span)>)
    ensures
        match r {
            Some((target, span)) => exists|i: int|
                {
                    &&& 0 <= i < preorder(*expr).len()
                    &&& extern_call(#[trigger] preorder(*expr)[i]) == Some((*target, span))
                    &&& forall|j: int| 0 <= j < i ==> extern_call(#[trigger] preorder(*expr)[j]) is None
                },
            None => forall|j: int|
                0 <= j < preorder(*expr).len() ==> extern_call(#[trigger] preorder(*expr)[j]) is None,
        },
{
    let all = visit_expr(expr);
    let ghost list = preorder(*expr);
    for i in 0..all.len()
        invariant
            nodes(all@) == list,
            list == preorder(*expr),
            forall|j: int| 0 <= j < i ==> extern_call(#[trigger] list[j]) is None,
    {
        let node = all[i];
        assert(*node == list[i as int]) by {
            assert(nodes(all@)[i as int] == *all@[i as int]);
        }
        match &node.kind {
            ExprKind::FnCall { callee, args: _ } => match &callee.value {
                FunctionRef::External(target) => {
                    assert(extern_call(preorder(*expr)[i as int]) == Some((*target, callee.span)));
                    return Some((target, callee.span));
                },
                _ => {},
            },
            _ => {},
        }
    }
    None
}

} // verus!
