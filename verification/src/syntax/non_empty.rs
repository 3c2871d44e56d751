//! Lists with at least one item.

use vstd::prelude::*;

verus! {

/// A list with at least one item.
#[derive(Clone, Debug, PartialEq, Eq, Hash)]
pub struct NonEmpty<T> {
    pub first: Box<T>,
    pub rest: Vec<T>,
}

impl<T> View for NonEmpty<T> {
    type V = Seq<T>;

    open spec fn view(&self) -> Seq<T> {
        seq![*self.first] + self.rest@
    }
}

impl<T> NonEmpty<T> {
    pub fn new(first: T, rest: Vec<T>) -> (r: NonEmpty<T>)
        ensures
            *r.first == first,
            r.rest == rest,
    {
        NonEmpty { first: Box::new(first), rest }
    }

    pub fn singleton(first: T) -> (r: NonEmpty<T>)
        ensures
            r@ == seq![first],
            *r.first == first,
            r.rest@.len() == 0,
    {
        let r = NonEmpty { first: Box::new(first), rest: Vec::new() };
        assert(r@ =~= seq![first]);
        r
    }

    /// The list with the items of `items`, where there are any.
    pub fn try_from_vec(items: Vec<T>) -> (r: Option<NonEmpty<T>>)
        ensures
            r is Some == (items@.len() > 0),
            r is Some ==> r->0@ == items@,
    {
        let mut items = items;
        if items.len() == 0 {
            return None;
        }
        let ghost all = items@;
        let first = items.remove(0);
        let r = NonEmpty { first: Box::new(first), rest: items };
        assert(r@ =~= all);
        Some(r)
    }

    /// The items as a vector, in order.
    pub fn into_vec(self) -> (r: Vec<T>)
        ensures
            r@ == self@,
    {
        let ghost all = self@;
        let mut items = self.rest;
        items.insert(0, *self.first);
        assert(items@ =~= all);
        items
    }

    pub fn len(&self) -> (r: usize)
        requires
            self.rest@.len() < usize::MAX,
        ensures
            r == self@.len(),
    {
        self.rest.len() + 1
    }

    pub fn get(&self, i: usize) -> (r: &T)
        requires
            i < self@.len(),
        ensures
            *r == self@[i as int],
    {
        if i == 0 {
            &self.first
        } else {
            &self.rest[i - 1]
        }
    }

    pub fn last(&self) -> (r: &T)
        ensures
            *r == self@.last(),
    {
        if self.rest.len() == 0 {
            &self.first
        } else {
            &self.rest[self.rest.len() - 1]
        }
    }
}

} // verus!
