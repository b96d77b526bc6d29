//! The operation on a list: the borrow of the list, and the record of what
//! has been asked of the list through it.
//!
//! The list is reached through this module alone, and each request is
//! recorded where it is made. A list takes insertions and nothing else.

use crate::collections::linked_list::list::LinkedList;
use crate::stream::Request;
use vstd::prelude::*;

verus! {

/// An extend operation in progress on a `LinkedList`.
pub struct ListExtend<'a, T> {
    list: &'a mut LinkedList<T>,
    made: Ghost<Seq<Request<T>>>,
}

impl<'a, T> ListExtend<'a, T> {
    /// The borrow of the list that the operation extends.
    pub closed spec fn lease(&self) -> &'a mut LinkedList<T> {
        self.list
    }

    /// The requests made of the list since the operation began, first to
    /// last.
    pub closed spec fn record(&self) -> Seq<Request<T>> {
        self.made@
    }

    /// Begins an operation on `list`, with nothing asked of it yet. What
    /// the list holds when the borrow ends is what the operation leaves.
    pub fn begin(list: &'a mut LinkedList<T>) -> (operation: Self)
        ensures
            operation.lease()@ == old(list)@,
            operation.record() == Seq::<Request<T>>::empty(),
            *final(operation.lease()) == *final(list),
    {
        ListExtend { list, made: Ghost(Seq::empty()) }
    }

    /// Asks the list to take `item` at its tail.
    pub fn push_back(&mut self, item: T)
        ensures
            final(self).lease()@ == old(self).lease()@.push(item),
            final(self).record() == old(self).record().push(Request::Insert(item)),
            *final(final(self).lease()) == *final(old(self).lease()),
    {
        self.made = Ghost(self.made@.push(Request::Insert(item)));
        self.list.push_back(item);
    }

    /// The list as it stands, to look at.
    pub fn target(&self) -> (list: &LinkedList<T>)
        ensures
            *list == *self.lease(),
    {
        &*self.list
    }

    /// Abandons the operation. The list keeps what has been inserted so far,
    /// and the borrow ends.
    pub fn abandon(self)
        ensures
            *final(self.lease()) == *self.lease(),
    {
    }

    /// An operation that has been dropped has left the list as the operation
    /// held it.
    pub proof fn dropped(self)
        requires
            has_resolved(self),
        ensures
            *final(self.lease()) == *self.lease(),
    {
    }
}

} // verus!
