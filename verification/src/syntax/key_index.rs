//! Finding the entries of a table by their keys.

use crate::syntax::ast::{IndexEntryKey, MapEntry, MapEntryKey};
use crate::syntax::non_empty::NonEmpty;
use crate::syntax::term::{lemma_prepend, prepend, Reading, Spans, Syntax, Term};
use std::collections::HashMap;
use vstd::prelude::*;

verus! {

broadcast use vstd::std_specs::hash::group_hash_axioms;

/// A number that takes in one more.
pub open spec fn mixed(h: int, x: int) -> int {
    (h % 4294967296) * 1000003 + x % 4294967296
}

pub open spec fn bytes_hash(bytes: Seq<u8>) -> int
    decreases bytes.len(),
{
    if bytes.len() == 0 {
        0
    } else {
        mixed(bytes_hash(bytes.drop_last()), bytes.last() as int)
    }
}

/// A number that equivalent keys share.
pub open spec fn key_hash(key: MapEntryKey) -> int {
    match key {
        MapEntryKey::Discrete { index, additional_index_spans, entry } => match entry.value {
            IndexEntryKey::Named(name) => bytes_hash(vstd::utf8::encode_utf8(name.atom.text@)),
            IndexEntryKey::Position(position) => mixed(1, position as int),
        },
        MapEntryKey::Expression { axis, expr } => 0,
    }
}

pub open spec fn keys_hash(keys: NonEmpty<MapEntryKey>, n: nat) -> int
    decreases n,
{
    if n == 0 || n > keys.rest.len() {
        key_hash(*keys.first)
    } else {
        mixed(keys_hash(keys, (n - 1) as nat), key_hash(keys.rest[n - 1]))
    }
}

/// A number that entries with equivalent keys share.
pub open spec fn entry_hash(entry: MapEntry) -> int {
    keys_hash(entry.keys, entry.keys.rest.len() as nat)
}

/// The keys of an entry without their positions.
pub open spec fn key_terms(entry: MapEntry) -> Seq<Term> {
    prepend(
        entry.keys.first.to_term(Reading::SpanFree),
        MapEntryKey::terms(entry.keys.rest, Reading::SpanFree),
    )
}

/// Whether no two entries have equivalent keys.
pub open spec fn distinct_keys(entries: Vec<MapEntry>) -> bool {
    forall|i: int, j: int|
        0 <= i < j < entries.len() ==> key_terms(#[trigger] entries[i]) != key_terms(#[trigger] entries[j])
}

proof fn lemma_key_hash(a: MapEntryKey, b: MapEntryKey)
    requires
        a.to_term(Reading::SpanFree) == b.to_term(Reading::SpanFree),
    ensures
        key_hash(a) == key_hash(b),
{
    match (a, b) {
        (
            MapEntryKey::Discrete { index, additional_index_spans, entry },
            MapEntryKey::Discrete { index: index_, additional_index_spans: additional_, entry: entry_ },
        ) => {
            assert(entry.term(Spans::Dropped) == entry_.term(Spans::Dropped));
            assert(entry.value.term(Spans::Dropped) == entry_.value.term(Spans::Dropped));
        },
        _ => {},
    }
}

proof fn lemma_keys_hash(a: NonEmpty<MapEntryKey>, b: NonEmpty<MapEntryKey>, n: nat)
    requires
        a.first.to_term(Reading::SpanFree) == b.first.to_term(Reading::SpanFree),
        MapEntryKey::terms(a.rest, Reading::SpanFree) == MapEntryKey::terms(b.rest, Reading::SpanFree),
    ensures
        a.rest.len() == b.rest.len(),
        keys_hash(a, n) == keys_hash(b, n),
    decreases n,
{
    let s = MapEntryKey::terms(a.rest, Reading::SpanFree);
    let t = MapEntryKey::terms(b.rest, Reading::SpanFree);
    assert(s.len() == t.len());
    lemma_key_hash(*a.first, *b.first);
    if 0 < n <= a.rest.len() {
        lemma_keys_hash(a, b, (n - 1) as nat);
        assert(s[n - 1] == t[n - 1]);
        lemma_key_hash(a.rest[n - 1], b.rest[n - 1]);
    }
}

/// Entries with equivalent keys share their number.
pub proof fn lemma_entry_hash(a: MapEntry, b: MapEntry)
    requires
        key_terms(a) == key_terms(b),
    ensures
        entry_hash(a) == entry_hash(b),
{
    lemma_prepend(
        a.keys.first.to_term(Reading::SpanFree),
        MapEntryKey::terms(a.keys.rest, Reading::SpanFree),
        b.keys.first.to_term(Reading::SpanFree),
        MapEntryKey::terms(b.keys.rest, Reading::SpanFree),
    );
    lemma_keys_hash(a.keys, b.keys, a.keys.rest.len() as nat);
}

fn mix(h: u64, x: u64) -> (r: u64)
    ensures
        r == mixed(h as int, x as int),
{
    (h % 4294967296) * 1000003 + x % 4294967296
}

fn hash_of_key(key: &MapEntryKey) -> (r: u64)
    ensures
        r == key_hash(*key),
{
    match key {
        MapEntryKey::Discrete { index: _, additional_index_spans: _, entry } => match &entry.value {
            IndexEntryKey::Named(name) => {
                let bytes = name.atom.text.as_str().as_bytes();
                let mut h: u64 = 0;
                assert(bytes@.take(0).len() == 0);
                for i in 0..bytes.len()
                    invariant
                        h == bytes_hash(bytes@.take(i as int)),
                {
                    assert(bytes@.take(i as int + 1).drop_last() =~= bytes@.take(i as int));
                    h = mix(h, bytes[i] as u64);
                }
                assert(bytes@.take(bytes@.len() as int) =~= bytes@);
                h
            },
            IndexEntryKey::Position(position) => mix(1, *position),
        },
        MapEntryKey::Expression { axis: _, expr: _ } => 0,
    }
}

/// The number of an entry.
pub(crate) fn hash_of_entry(entry: &MapEntry) -> (r: u64)
    ensures
        r == entry_hash(*entry),
{
    let mut h = hash_of_key(&entry.keys.first);
    for i in 0..entry.keys.rest.len()
        invariant
            h == keys_hash(entry.keys, i as nat),
    {
        h = mix(h, hash_of_key(&entry.keys.rest[i]));
    }
    h
}

/// The entries of a table in chains, one for each number.
pub(crate) struct KeyIndex {
    pub(crate) heads: HashMap<u64, usize>,
    /// The entry that follows each entry in its chain.
    pub(crate) links: Vec<Option<usize>>,
}

/// Whether a link leads to an entry before `k`.
pub(crate) open spec fn before(link: Option<usize>, k: int) -> bool {
    match link {
        Some(p) => p < k,
        None => true,
    }
}

/// Whether a chain holds an entry.
pub(crate) open spec fn leads(links: Seq<Option<usize>>, from: Option<usize>, j: int) -> bool
    decreases (match from {
        Some(k) => k + 1,
        None => 0int,
    }),
{
    match from {
        None => false,
        Some(k) => k == j || (k < links.len() && before(links[k as int], k as int) && leads(
            links,
            links[k as int],
            j,
        )),
    }
}

proof fn lemma_leads_push(links: Seq<Option<usize>>, link: Option<usize>, from: Option<usize>, j: int)
    requires
        before(from, links.len() as int),
    ensures
        leads(links.push(link), from, j) == leads(links, from, j),
    decreases (match from {
        Some(k) => k + 1,
        None => 0int,
    }),
{
    match from {
        None => {},
        Some(k) => {
            if before(links[k as int], k as int) {
                lemma_leads_push(links, link, links[k as int], j);
            }
        },
    }
}

impl KeyIndex {
    /// The first entry of a chain.
    pub(crate) open spec fn head(self, h: u64) -> Option<usize> {
        if self.heads@.contains_key(h) {
            Some(self.heads@[h])
        } else {
            None
        }
    }

    /// Whether each of the first `n` entries stands in the chain of its number.
    pub(crate) open spec fn holds(self, entries: Vec<MapEntry>, n: int) -> bool {
        &&& self.links@.len() == n
        &&& n <= entries.len()
        &&& forall|h: u64| before(#[trigger] self.head(h), n)
        &&& forall|k: int| 0 <= k < n ==> before(#[trigger] self.links@[k], k)
        &&& forall|j: int| 0 <= j < n ==> leads(self.links@, self.head(entry_hash(#[trigger] entries[j]) as u64), j)
    }

    pub(crate) fn first(&self, h: u64) -> (r: Option<usize>)
        ensures
            r == self.head(h),
    {
        match self.heads.get(&h) {
            Some(k) => Some(*k),
            None => None,
        }
    }

    pub(crate) fn new(entries: &Vec<MapEntry>) -> (r: KeyIndex)
        ensures
            r.holds(*entries, entries.len() as int),
    {
        let mut index = KeyIndex { heads: HashMap::new(), links: Vec::new() };
        for i in 0..entries.len()
            invariant
                index.holds(*entries, i as int),
        {
            let ghost old_index = index;
            let h = hash_of_entry(&entries[i]);
            let first = index.first(h);
            index.links.push(first);
            index.heads.insert(h, i);
            proof {
                let old_links = old_index.links@;
                assert(index.links@ == old_links.push(first));
                assert forall|g: u64| before(#[trigger] index.head(g), i + 1) by {
                    assert(before(old_index.head(g), i as int));
                }
                assert forall|k: int| 0 <= k < i + 1 implies before(#[trigger] index.links@[k], k) by {
                    if k < i {
                        assert(index.links@[k] == old_links[k]);
                    } else {
                        assert(before(old_index.head(h), i as int));
                    }
                }
                assert forall|j: int| 0 <= j < i + 1 implies leads(
                    index.links@,
                    index.head(entry_hash(#[trigger] entries[j]) as u64),
                    j,
                ) by {
                    let g = entry_hash(entries[j]) as u64;
                    if j < i {
                        assert(leads(old_links, old_index.head(g), j));
                        assert(before(old_index.head(g), i as int));
                        lemma_leads_push(old_links, first, old_index.head(g), j);
                    }
                }
            }
        }
        index
    }
}

} // verus!
