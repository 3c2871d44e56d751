//! Values of locals, in nested frames.

use crate::hir::tree::LocalId;
use vstd::prelude::*;

verus! {

/// The values bound in one frame, over those of the frames around it.
pub struct LocalEnv<'a, V> {
    pub parent: Option<&'a LocalEnv<'a, V>>,
    pub bindings: Vec<(LocalId, V)>,
}

/// The value that a list of bindings gives a local: that of its last binding.
pub open spec fn last_bound<V>(bindings: Seq<(LocalId, V)>, id: LocalId) -> Option<V>
    decreases bindings.len(),
{
    if bindings.len() == 0 {
        None
    } else if bindings.last().0 == id {
        Some(bindings.last().1)
    } else {
        last_bound(bindings.drop_last(), id)
    }
}

/// The place of the first binding of a local, if it has one.
pub open spec fn first_place<V>(bindings: Seq<(LocalId, V)>, id: LocalId, i: int) -> Option<int>
    decreases bindings.len() - i,
{
    if i < 0 || i >= bindings.len() {
        None
    } else if bindings[i].0 == id {
        Some(i)
    } else {
        first_place(bindings, id, i + 1)
    }
}

/// The bindings after a local was given a value: its first binding is replaced,
/// or a new one is added.
pub open spec fn rebound<V>(bindings: Seq<(LocalId, V)>, id: LocalId, value: V) -> Seq<(LocalId, V)> {
    match first_place(bindings, id, 0) {
        Some(i) => bindings.update(i, (id, value)),
        None => bindings.push((id, value)),
    }
}

impl<'a, V> LocalEnv<'a, V> {
    /// The value of a local: that of the innermost frame that binds it.
    pub open spec fn lookup(self, id: LocalId) -> Option<V>
        decreases self,
    {
        match last_bound(self.bindings@, id) {
            Some(value) => Some(value),
            None => match self.parent {
                Some(parent) => parent.lookup(id),
                None => None,
            },
        }
    }

    pub fn root() -> (r: LocalEnv<'a, V>)
        ensures
            r.parent is None,
            r.bindings@.len() == 0,
    {
        LocalEnv { parent: None, bindings: Vec::new() }
    }

    pub fn from_bindings(bindings: Vec<(LocalId, V)>) -> (r: LocalEnv<'a, V>)
        ensures
            r.parent is None,
            r.bindings == bindings,
    {
        LocalEnv { parent: None, bindings }
    }

    /// A frame inside this one.
    pub fn child<'b>(&'b self, bindings: Vec<(LocalId, V)>) -> (r: LocalEnv<'b, V>)
        ensures
            r.parent == Some(self),
            r.bindings == bindings,
    {
        LocalEnv { parent: Some(self), bindings }
    }

    /// The value of a local, if it is bound.
    pub fn get(&self, id: LocalId) -> (r: Option<&V>)
        ensures
            match r {
                Some(value) => self.lookup(id) == Some(*value),
                None => self.lookup(id) is None,
            },
        decreases self,
    {
        let mut i: usize = self.bindings.len();
        assert(self.bindings@.take(i as int) =~= self.bindings@);
        while i > 0
            invariant
                i <= self.bindings@.len(),
                last_bound(self.bindings@, id) == last_bound(self.bindings@.take(i as int), id),
            decreases i,
        {
            let ghost front = self.bindings@.take(i as int);
            assert(front.drop_last() =~= self.bindings@.take(i as int - 1));
            i = i - 1;
            if self.bindings[i].0 == id {
                return Some(&self.bindings[i].1);
            }
        }
        match self.parent {
            Some(parent) => parent.get(id),
            None => None,
        }
    }

    /// Give a local a value in this frame.
    pub fn bind(&mut self, id: LocalId, value: V)
        ensures
            final(self).parent == old(self).parent,
            final(self).bindings@ == rebound(old(self).bindings@, id, value),
    {
        let ghost before = self.bindings@;
        let n: usize = self.bindings.len();
        for i in 0..n
            invariant
                n == before.len(),
                self.bindings@ == before,
                self.parent == old(self).parent,
                before == old(self).bindings@,
                first_place(before, id, 0) == first_place(before, id, i as int),
        {
            if self.bindings[i].0 == id {
                self.bindings.set(i, (id, value));
                return;
            }
        }
        self.bindings.push((id, value));
    }
}

proof fn lemma_last_bound_update<V>(bindings: Seq<(LocalId, V)>, id: LocalId, value: V, i: int, other: LocalId)
    requires
        0 <= i < bindings.len(),
        bindings[i].0 == id,
        forall|j: int, k: int| 0 <= j < k < bindings.len() ==> bindings[j].0 != bindings[k].0,
    ensures
        last_bound(bindings.update(i, (id, value)), other) == if other == id {
            Some(value)
        } else {
            last_bound(bindings, other)
        },
    decreases bindings.len(),
{
    let updated = bindings.update(i, (id, value));
    if i == bindings.len() - 1 {
        assert(updated.drop_last() =~= bindings.drop_last());
    } else {
        assert(updated.drop_last() =~= bindings.drop_last().update(i, (id, value)));
        assert(bindings.last().0 != id);
        lemma_last_bound_update(bindings.drop_last(), id, value, i, other);
    }
}

proof fn lemma_first_place<V>(bindings: Seq<(LocalId, V)>, id: LocalId, i: int)
    requires
        0 <= i,
    ensures
        match first_place(bindings, id, i) {
            Some(p) => i <= p < bindings.len() && bindings[p].0 == id,
            None => forall|j: int| i <= j < bindings.len() ==> bindings[j].0 != id,
        },
    decreases bindings.len() - i,
{
    if i < bindings.len() && bindings[i].0 != id {
        lemma_first_place(bindings, id, i + 1);
    }
}

proof fn lemma_unbound<V>(bindings: Seq<(LocalId, V)>, id: LocalId)
    requires
        forall|j: int| 0 <= j < bindings.len() ==> bindings[j].0 != id,
    ensures
        last_bound(bindings, id) is None,
    decreases bindings.len(),
{
    if bindings.len() > 0 {
        lemma_unbound(bindings.drop_last(), id);
    }
}

/// In a frame that binds no local twice, binding a local gives it that value
/// and leaves every other local of the frame as it was.
pub proof fn law_bind_then_get<V>(bindings: Seq<(LocalId, V)>, id: LocalId, value: V, other: LocalId)
    requires
        forall|j: int, k: int| 0 <= j < k < bindings.len() ==> bindings[j].0 != bindings[k].0,
    ensures
        last_bound(rebound(bindings, id, value), other) == if other == id {
            Some(value)
        } else {
            last_bound(bindings, other)
        },
{
    lemma_first_place(bindings, id, 0);
    match first_place(bindings, id, 0) {
        Some(i) => {
            lemma_last_bound_update(bindings, id, value, i, other);
        },
        None => {
            assert(bindings.push((id, value)).drop_last() =~= bindings);
        },
    }
}

/// Binding keeps a frame free of locals that are bound twice.
pub proof fn law_bind_keeps_locals_distinct<V>(bindings: Seq<(LocalId, V)>, id: LocalId, value: V)
    requires
        forall|j: int, k: int| 0 <= j < k < bindings.len() ==> bindings[j].0 != bindings[k].0,
    ensures
        forall|j: int, k: int|
            0 <= j < k < rebound(bindings, id, value).len() ==> rebound(bindings, id, value)[j].0 != rebound(
                bindings,
                id,
                value,
            )[k].0,
{
    lemma_first_place(bindings, id, 0);
}

/// A frame's own bindings hide those of the frames around it, and what a frame
/// does not bind it takes from them.
pub proof fn law_inner_frames_shadow_outer_ones<'a, V>(
    outer: &'a LocalEnv<'a,
    V>,
    bindings: Vec<(LocalId, V)>,
    id: LocalId,
)
    ensures
        ({
            let inner = LocalEnv { parent: Some(outer), bindings };
            inner.lookup(id) == match last_bound(bindings@, id) {
                Some(value) => Some(value),
                None => outer.lookup(id),
            }
        }),
{
}

} // verus!
