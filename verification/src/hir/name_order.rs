//! The order of resolved names: by the module that owns them, then by name.
//! Texts are ordered by their bytes.

use crate::hir::tree::{DagId, ResolvedDeclName};
use vstd::prelude::*;

verus! {

/// Whether two texts first differ at a place, and `a` comes first.
pub open spec fn parts_at(a: Seq<u8>, b: Seq<u8>, k: int) -> bool {
    &&& 0 <= k <= a.len()
    &&& k < b.len()
    &&& forall|i: int| 0 <= i < k ==> a[i] == b[i]
    &&& k == a.len() || a[k] < b[k]
}

/// Whether a text comes before another.
pub open spec fn text_before(a: Seq<u8>, b: Seq<u8>) -> bool {
    exists|k: int| parts_at(a, b, k)
}

/// Whether two modules first differ at a segment, and `a` comes first.
pub open spec fn forks_at(a: Seq<Seq<u8>>, b: Seq<Seq<u8>>, k: int) -> bool {
    &&& 0 <= k <= a.len()
    &&& k < b.len()
    &&& forall|i: int| 0 <= i < k ==> a[i] == b[i]
    &&& k == a.len() || text_before(a[k], b[k])
}

/// Whether a module comes before another.
pub open spec fn module_before(a: Seq<Seq<u8>>, b: Seq<Seq<u8>>) -> bool {
    exists|k: int| forks_at(a, b, k)
}

pub open spec fn owner_bytes(id: DagId) -> Seq<Seq<u8>> {
    Seq::new(id.segments@.len(), |i: int| vstd::utf8::encode_utf8(id.segments@[i]@))
}

pub open spec fn name_bytes(name: ResolvedDeclName) -> Seq<u8> {
    vstd::utf8::encode_utf8(name.name.atom.text@)
}

/// Whether a name comes before another.
pub open spec fn name_before(a: ResolvedDeclName, b: ResolvedDeclName) -> bool {
    module_before(owner_bytes(a.owner), owner_bytes(b.owner)) || (owner_bytes(a.owner) == owner_bytes(b.owner)
        && text_before(name_bytes(a), name_bytes(b)))
}

/// Whether no name in a list comes before an earlier one.
pub open spec fn in_order(names: Seq<ResolvedDeclName>) -> bool {
    forall|i: int, j: int| 0 <= i < j < names.len() ==> !name_before(#[trigger] names[j], #[trigger] names[i])
}

proof fn lemma_texts(a: Seq<u8>, b: Seq<u8>, c: Seq<u8>)
    ensures
        !text_before(a, a),
        text_before(a, b) && text_before(b, c) ==> text_before(a, c),
        !(text_before(a, b) && text_before(b, a)),
{
    if text_before(a, b) && text_before(b, c) {
        let k = choose|k: int| parts_at(a, b, k);
        let m = choose|m: int| parts_at(b, c, m);
        assert(parts_at(a, c, if k <= m { k } else { m }));
    }
    if text_before(a, b) && text_before(b, a) {
        let k = choose|k: int| parts_at(a, b, k);
        let m = choose|m: int| parts_at(b, a, m);
        assert(parts_at(a, a, if k <= m { k } else { m }));
    }
}

proof fn lemma_modules(a: Seq<Seq<u8>>, b: Seq<Seq<u8>>, c: Seq<Seq<u8>>)
    ensures
        !module_before(a, a),
        module_before(a, b) && module_before(b, c) ==> module_before(a, c),
{
    if module_before(a, a) {
        let k = choose|k: int| forks_at(a, a, k);
        lemma_texts(a[k], a[k], a[k]);
    }
    if module_before(a, b) && module_before(b, c) {
        let k = choose|k: int| forks_at(a, b, k);
        let m = choose|m: int| forks_at(b, c, m);
        let n = if k <= m { k } else { m };
        if n < a.len() {
            lemma_texts(a[n], b[n], c[n]);
        }
        assert(forks_at(a, c, n));
    }
}

/// Names are ordered: none comes before itself, and what comes before a name
/// comes before all that the name comes before.
pub proof fn law_names_are_ordered(a: ResolvedDeclName, b: ResolvedDeclName, c: ResolvedDeclName)
    ensures
        !name_before(a, a),
        name_before(a, b) && name_before(b, c) ==> name_before(a, c),
{
    lemma_texts(name_bytes(a), name_bytes(b), name_bytes(c));
    lemma_modules(owner_bytes(a.owner), owner_bytes(b.owner), owner_bytes(c.owner));
    lemma_modules(owner_bytes(a.owner), owner_bytes(a.owner), owner_bytes(a.owner));
}

/// How two things stand to each other.
enum Place {
    Before,
    Same,
    After,
}

fn place_texts(a: &String, b: &String) -> (r: Place)
    ensures
        ({
            let x = vstd::utf8::encode_utf8(a@);
            let y = vstd::utf8::encode_utf8(b@);
            match r {
                Place::Before => text_before(x, y),
                Place::Same => x == y,
                Place::After => text_before(y, x),
            }
        }),
{
    let x = a.as_str().as_bytes();
    let y = b.as_str().as_bytes();
    let mut i: usize = 0;
    while i < x.len() && i < y.len() && x[i] == y[i]
        invariant
            i <= x@.len(),
            i <= y@.len(),
            forall|j: int| 0 <= j < i ==> x@[j] == y@[j],
        decreases x@.len() - i,
    {
        i = i + 1;
    }
    if i == x.len() && i == y.len() {
        assert(x@ =~= y@);
        Place::Same
    } else if i < y.len() && (i == x.len() || x[i] < y[i]) {
        assert(parts_at(x@, y@, i as int));
        Place::Before
    } else {
        assert(parts_at(y@, x@, i as int));
        Place::After
    }
}

fn place_modules(a: &DagId, b: &DagId) -> (r: Place)
    ensures
        match r {
            Place::Before => module_before(owner_bytes(*a), owner_bytes(*b)),
            Place::Same => owner_bytes(*a) == owner_bytes(*b),
            Place::After => module_before(owner_bytes(*b), owner_bytes(*a)),
        },
{
    let ghost x = owner_bytes(*a);
    let ghost y = owner_bytes(*b);
    let mut i: usize = 0;
    while i < a.segments.len() && i < b.segments.len()
        invariant
            x == owner_bytes(*a),
            y == owner_bytes(*b),
            i <= a.segments@.len(),
            i <= b.segments@.len(),
            forall|j: int| 0 <= j < i ==> x[j] == y[j],
        decreases a.segments@.len() - i,
    {
        match place_texts(&a.segments[i], &b.segments[i]) {
            Place::Before => {
                assert(forks_at(x, y, i as int));
                return Place::Before;
            },
            Place::After => {
                assert(forks_at(y, x, i as int));
                return Place::After;
            },
            Place::Same => {},
        }
        i = i + 1;
    }
    if i < b.segments.len() {
        assert(forks_at(x, y, i as int));
        Place::Before
    } else if i < a.segments.len() {
        assert(forks_at(y, x, i as int));
        Place::After
    } else {
        assert(x =~= y);
        Place::Same
    }
}

/// Whether a name comes before another.
pub fn comes_before(a: &ResolvedDeclName, b: &ResolvedDeclName) -> (r: bool)
    ensures
        r == name_before(*a, *b),
{
    proof {
        lemma_modules(owner_bytes(a.owner), owner_bytes(b.owner), owner_bytes(a.owner));
        lemma_modules(owner_bytes(b.owner), owner_bytes(a.owner), owner_bytes(b.owner));
        lemma_texts(name_bytes(*a), name_bytes(*b), name_bytes(*a));
        lemma_texts(name_bytes(*b), name_bytes(*a), name_bytes(*b));
    }
    match place_modules(&a.owner, &b.owner) {
        Place::Before => true,
        Place::After => false,
        Place::Same => match place_texts(&a.name.atom.text, &b.name.atom.text) {
            Place::Before => true,
            _ => false,
        },
    }
}

} // verus!
