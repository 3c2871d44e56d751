//! What is known while an expression is resolved.

use crate::hir::context::ExprLoweringContext;
use crate::hir::error::ExprLowerError;
use crate::hir::lowering::{
    allocated, earlier, entered, first_duplicate, left, local_in, local_of_name, Local, Low, St,
};
use crate::hir::tree::{LocalDef, LocalId};
use crate::syntax::names::{LocalName, NameAtom};
use crate::syntax::span::Span;
use crate::syntax::term::{Spans, Syntax, Term};
use vstd::prelude::*;

verus! {

/// The local that a definition makes.
pub open spec fn local_of(def: LocalDef) -> Local {
    Local { id: def.id.id as int, name: def.name.atom.text@, span: def.span }
}

pub open spec fn locals_of(scope: Seq<LocalDef>) -> Seq<Local> {
    Seq::new(scope.len(), |i: int| local_of(scope[i]))
}

pub(crate) fn copy_local(def: &LocalDef) -> (r: LocalDef)
    ensures
        local_of(r) == local_of(*def),
{
    LocalDef { id: def.id, name: LocalName { atom: NameAtom { text: def.name.atom.text.clone() } }, span: def.span }
}

/// Resolves one expression.
pub struct ExprLowerer<'a> {
    pub ctx: ExprLoweringContext<'a>,
    pub local_scopes: Vec<Vec<LocalDef>>,
    pub next_local: u32,
    pub diagnostics: Vec<ExprLowerError>,
}

pub open spec fn error_terms(errors: Seq<ExprLowerError>) -> Seq<Term> {
    Seq::new(errors.len(), |i: int| errors[i].to_term())
}

/// `before` with more errors, and perhaps more scopes.
#[verifier::opaque]
pub open spec fn grew(before: ExprLowerer, after: ExprLowerer) -> bool {
    &&& before.diagnostics@.len() <= after.diagnostics@.len()
    &&& before.diagnostics@ =~= after.diagnostics@.take(before.diagnostics@.len() as int)
    &&& before.local_scopes@.len() <= after.local_scopes@.len()
    &&& before.local_scopes@ =~= after.local_scopes@.take(before.local_scopes@.len() as int)
}

/// Whether errors were added.
#[verifier::opaque]
pub open spec fn erred(before: ExprLowerer, after: ExprLowerer) -> bool {
    after.diagnostics@.len() > before.diagnostics@.len()
}

pub broadcast proof fn lemma_grew(a: ExprLowerer, b: ExprLowerer, c: ExprLowerer)
    requires
        #[trigger] grew(a, b),
        #[trigger] grew(b, c),
    ensures
        grew(a, c),
        erred(a, c) == (erred(a, b) || erred(b, c)),
{
    reveal(grew);
    reveal(erred);
    assert(a.diagnostics@ =~= c.diagnostics@.take(a.diagnostics@.len() as int));
    assert(a.local_scopes@ =~= c.local_scopes@.take(a.local_scopes@.len() as int));
}

pub proof fn lemma_grew_same(a: ExprLowerer)
    ensures
        grew(a, a),
        !erred(a, a),
{
    reveal(grew);
    reveal(erred);
    assert(a.diagnostics@ =~= a.diagnostics@.take(a.diagnostics@.len() as int));
    assert(a.local_scopes@ =~= a.local_scopes@.take(a.local_scopes@.len() as int));
}

/// What resolving a part gave.
pub open spec fn low<T: Syntax>(r: Result<T, ExprLowerError>, after: ExprLowerer) -> Low<Term> {
    match r {
        Ok(value) => Low::Done(value.term(Spans::Kept), after.state()),
        Err(error) => Low::Failed(error.to_term()),
    }
}

/// What resolving a part gave, where the part is given as a term.
pub open spec fn low_term<T, U>(r: Result<T, ExprLowerError>, f: spec_fn(T) -> U, after: ExprLowerer) -> Low<U> {
    match r {
        Ok(value) => Low::Done(f(value), after.state()),
        Err(error) => Low::Failed(error.to_term()),
    }
}

impl<'a> ExprLowerer<'a> {
    #[verifier::opaque]
    pub open spec fn state(&self) -> St {
        St {
            scopes: Seq::new(self.local_scopes@.len(), |i: int| locals_of(self.local_scopes@[i]@)),
            next: self.next_local as int,
            errors: error_terms(self.diagnostics@),
        }
    }

    pub(crate) fn new(ctx: ExprLoweringContext<'a>) -> (r: ExprLowerer<'a>)
        ensures
            r.ctx == ctx,
            r.state() == (St { scopes: Seq::empty(), next: 0, errors: Seq::empty() }),
            r.diagnostics@.len() == 0,
    {
        reveal(ExprLowerer::state);
        let r = ExprLowerer { ctx, local_scopes: Vec::new(), next_local: 0, diagnostics: Vec::new() };
        assert(r.state().scopes =~= Seq::empty());
        assert(r.state().errors =~= Seq::empty());
        r
    }

    pub(crate) fn allocate_local(&mut self, name: &NameAtom, span: Span) -> (r: Result<LocalDef, ExprLowerError>)
        ensures
            low_term(
                r,
                |def: LocalDef| local_of(def),
                *final(self),
            ) == allocated(old(self).state(), name.text@, span),
            grew(*old(self), *final(self)),
            !erred(*old(self), *final(self)),
            final(self).ctx == old(self).ctx,
    {
        reveal(ExprLowerer::state);
        reveal(grew);
        reveal(erred);
        let ghost before = *self;
        if self.next_local == u32::MAX {
            return Err(ExprLowerError::too_many_locals(span));
        }
        let id = LocalId { id: self.next_local };
        self.next_local = self.next_local + 1;
        assert(self.state().scopes =~= before.state().scopes);
        Ok(LocalDef { id, name: LocalName { atom: NameAtom { text: name.text.clone() } }, span })
    }

    /// The place of the first local with the name of the `n`th, before that.
    fn find_earlier(locals: &Vec<LocalDef>, n: usize) -> (r: Option<usize>)
        requires
            n < locals@.len(),
        ensures
            match r {
                Some(i) => i < n && earlier(locals_of(locals@), n as int, 0) == Some(i as int),
                None => earlier(locals_of(locals@), n as int, 0) is None,
            },
    {
        for i in 0..n
            invariant
                n < locals@.len(),
                earlier(locals_of(locals@), n as int, 0) == earlier(locals_of(locals@), n as int, i as int),
        {
            if locals[i].name.atom.same(&locals[n].name.atom) {
                return Some(i);
            }
        }
        None
    }

    pub(crate) fn push_scope(&mut self, locals: Vec<LocalDef>) -> (r: Result<(), ExprLowerError>)
        ensures
            grew(*old(self), *final(self)),
            !erred(*old(self), *final(self)),
            final(self).ctx == old(self).ctx,
            match r {
                Ok(_) => first_duplicate(locals_of(locals@), 0) is None && final(self).state() == entered(
                    old(self).state(),
                    locals_of(locals@),
                ) && final(self).local_scopes@.len() == old(self).local_scopes@.len() + 1,
                Err(error) => first_duplicate(locals_of(locals@), 0) == Some(error.to_term()),
            },
    {
        for n in 0..locals.len()
            invariant
                first_duplicate(locals_of(locals@), 0) == first_duplicate(locals_of(locals@), n as int),
        {
            match ExprLowerer::find_earlier(&locals, n) {
                Some(i) => {
                    proof {
                        lemma_grew_same(*self);
                    }
                    return Err(
                        ExprLowerError::duplicate_local_binding(
                            locals[n].name.atom.text.clone(),
                            locals[i].span,
                            locals[n].span,
                        ),
                    );
                },
                None => {},
            }
        }
        reveal(ExprLowerer::state);
        reveal(grew);
        reveal(erred);
        let ghost before = *self;
        self.local_scopes.push(locals);
        assert(self.state().scopes =~= before.state().scopes.push(locals_of(locals@)));
        Ok(())
    }

    pub(crate) fn pop_scope(&mut self)
        requires
            old(self).local_scopes@.len() > 0,
        ensures
            final(self).ctx == old(self).ctx,
            final(self).diagnostics@ == old(self).diagnostics@,
            final(self).local_scopes@ == old(self).local_scopes@.drop_last(),
            final(self).state() == left(old(self).state()),
    {
        reveal(ExprLowerer::state);
        let ghost before = *self;
        let _ = self.local_scopes.pop();
        assert(self.state().scopes =~= before.state().scopes.drop_last());
    }

    fn find_local(scope: &Vec<LocalDef>, name: &NameAtom) -> (r: Option<LocalId>)
        ensures
            match r {
                Some(id) => local_in(locals_of(scope@), name.text@, 0) == Some(id.id as int),
                None => local_in(locals_of(scope@), name.text@, 0) is None,
            },
    {
        for i in 0..scope.len()
            invariant
                local_in(locals_of(scope@), name.text@, 0) == local_in(locals_of(scope@), name.text@, i as int),
        {
            if scope[i].name.atom.same(name) {
                return Some(scope[i].id);
            }
        }
        None
    }

    pub(crate) fn lookup_local(&self, name: &NameAtom) -> (r: Option<LocalId>)
        ensures
            match r {
                Some(id) => local_of_name(self.state().scopes, name.text@) == Some(id.id as int),
                None => local_of_name(self.state().scopes, name.text@) is None,
            },
    {
        reveal(ExprLowerer::state);
        let ghost scopes = self.state().scopes;
        let mut n = self.local_scopes.len();
        assert(scopes.take(n as int) =~= scopes);
        while n > 0
            invariant
                n <= self.local_scopes@.len(),
                scopes == self.state().scopes,
                local_of_name(scopes, name.text@) == local_of_name(scopes.take(n as int), name.text@),
            decreases n,
        {
            n = n - 1;
            reveal(ExprLowerer::state);
            assert(scopes.take(n as int + 1).drop_last() =~= scopes.take(n as int));
            assert(scopes.take(n as int + 1).last() == locals_of(self.local_scopes@[n as int]@));
            match ExprLowerer::find_local(&self.local_scopes[n], name) {
                Some(id) => return Some(id),
                None => {},
            }
        }
        None
    }
}

} // verus!
