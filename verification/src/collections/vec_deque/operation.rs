//! The operation on a deque: the borrow of the deque, and the record of what
//! has been asked of the deque through it.
//!
//! The deque is reached through this module alone, and each request is
//! recorded where it is made.

use crate::stream::Request;
use std::collections::VecDeque;
use vstd::prelude::*;

verus! {

/// An extend operation in progress on a `VecDeque`.
pub struct DequeExtend<'a, T> {
    deque: &'a mut VecDeque<T>,
    made: Ghost<Seq<Request<T>>>,
}

impl<'a, T> DequeExtend<'a, T> {
    /// The borrow of the deque that the operation extends.
    pub closed spec fn lease(&self) -> &'a mut VecDeque<T> {
        self.deque
    }

    /// The requests made of the deque since the operation began, first to
    /// last.
    pub closed spec fn record(&self) -> Seq<Request<T>> {
        self.made@
    }

    /// Begins an operation on `deque`, with nothing asked of it yet. What
    /// the deque holds when the borrow ends is what the operation leaves.
    pub fn begin(deque: &'a mut VecDeque<T>) -> (operation: Self)
        ensures
            operation.lease()@ == old(deque)@,
            operation.record() == Seq::<Request<T>>::empty(),
            *final(operation.lease()) == *final(deque),
    {
        DequeExtend { deque, made: Ghost(Seq::empty()) }
    }

    /// Asks the deque to reserve room for `additional` more items.
    pub fn reserve(&mut self, additional: usize)
        ensures
            final(self).lease()@ == old(self).lease()@,
            final(self).record() == old(self).record().push(Request::Reserve(additional)),
            *final(final(self).lease()) == *final(old(self).lease()),
    {
        self.made = Ghost(self.made@.push(Request::Reserve(additional)));
        self.deque.reserve(additional);
    }

    /// Asks the deque to take `item` at its back.
    pub fn push_back(&mut self, item: T)
        ensures
            final(self).lease()@ == old(self).lease()@.push(item),
            final(self).record() == old(self).record().push(Request::Insert(item)),
            *final(final(self).lease()) == *final(old(self).lease()),
    {
        self.made = Ghost(self.made@.push(Request::Insert(item)));
        self.deque.push_back(item);
    }

    /// The deque as it stands, to look at.
    pub fn target(&self) -> (deque: &VecDeque<T>)
        ensures
            *deque == *self.lease(),
    {
        &*self.deque
    }

    /// Abandons the operation. The deque keeps what has been inserted so
    /// far, and the borrow ends.
    pub fn abandon(self)
        ensures
            *final(self.lease()) == *self.lease(),
    {
    }

    /// An operation that has been dropped has left the deque as the
    /// operation held it.
    pub proof fn dropped(self)
        requires
            has_resolved(self),
        ensures
            *final(self.lease()) == *self.lease(),
    {
    }
}

} // verus!
