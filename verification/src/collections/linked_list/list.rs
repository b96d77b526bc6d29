//! A list that grows at its tail.

use vstd::prelude::*;

verus! {

/// A list that is extended at its tail: the items come out in the order in
/// which they went in. The list offers no reservation of room ahead of an
/// insertion.
#[derive(Debug, PartialEq, Eq)]
pub struct LinkedList<T> {
    items: Vec<T>,
}

impl<T> View for LinkedList<T> {
    type V = Seq<T>;

    /// The items of the list, from head to tail.
    closed spec fn view(&self) -> Seq<T> {
        self.items@
    }
}

impl<T> LinkedList<T> {
    /// The empty list.
    pub fn new() -> (list: Self)
        ensures
            list@ == Seq::<T>::empty(),
    {
        LinkedList { items: Vec::new() }
    }

    /// Appends `item` at the tail.
    pub fn push_back(&mut self, item: T)
        ensures
            final(self)@ == old(self)@.push(item),
    {
        self.items.push(item);
    }

    /// The number of items.
    pub fn len(&self) -> (count: usize)
        ensures
            count == self@.len(),
    {
        self.items.len()
    }

    /// The item at `index`, counted from the head, if the list is that long.
    pub fn get(&self, index: usize) -> (item: Option<&T>)
        ensures
            item == if index < self@.len() {
                Some(&self@[index as int])
            } else {
                None
            },
    {
        if index < self.items.len() {
            Some(&self.items[index])
        } else {
            None
        }
    }

    /// Gives up the list for its items, from head to tail.
    pub fn into_vec(self) -> (items: Vec<T>)
        ensures
            items@ == self@,
    {
        self.items
    }
}

} // verus!
