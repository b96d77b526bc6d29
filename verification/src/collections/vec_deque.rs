//! The extend contract for the double-ended buffer of the standard library.

pub mod operation;

pub use self::operation::DequeExtend;

use crate::laws::{requests_go_on, run_goes_on};
use crate::stream::{
    action_for, after_poll, after_run, answers_since, begun, can_reserve, insertions, opening,
    requests_after, turn, yielded,
};
use crate::stream::{
    Action, ExtendOperation, Poll, Producer, Recorded, Request, SizeHint, StreamExtend,
};
use std::collections::VecDeque;
use vstd::layout::size_of;
use vstd::prelude::*;

verus! {

impl<'a, T> ExtendOperation<T> for DequeExtend<'a, T> {
    open spec fn contents(&self) -> Seq<T> {
        self.lease()@
    }

    open spec fn requests(&self) -> Seq<Request<T>> {
        self.record()
    }

    /// An item that is ready is pushed at the back of the deque. The
    /// operation goes on borrowing the same deque.
    fn advance(&mut self, outcome: Poll<T>) -> (action: Action)
        ensures
            final(self).lease()@ == after_poll(old(self).lease()@, outcome),
            final(self).record() == requests_after(old(self).record(), outcome),
            action == action_for(outcome),
            *final(final(self).lease()) == *final(old(self).lease()),
    {
        match outcome {
            Poll::Ready(item) => {
                self.push_back(item);
                Action::PollAgain
            },
            Poll::Pending => Action::Suspend,
            Poll::Done => Action::Complete,
        }
    }

    /// The operation goes on borrowing the same deque.
    fn resume<P: Producer<Item = T>>(
        &mut self,
        producer: &mut Recorded<P>,
        budget: usize,
    ) -> (action: Action)
        ensures
            final(producer).answered() == old(producer).answered() + answers_since(
                old(producer).answered(),
                final(producer).answered(),
            ),
            turn(
                answers_since(old(producer).answered(), final(producer).answered()),
                budget as nat,
                action,
            ),
            final(self).lease()@ == after_run(
                old(self).lease()@,
                answers_since(old(producer).answered(), final(producer).answered()),
            ),
            final(self).record() == old(self).record() + insertions(
                yielded(answers_since(old(producer).answered(), final(producer).answered())),
            ),
            *final(final(self).lease()) == *final(old(self).lease()),
    {
        let ghost mut run: Seq<Poll<T>> = Seq::empty();
        let mut polls: usize = 0;
        assert(self.record() =~= old(self).record() + insertions(yielded(run)));
        while polls < budget
            invariant
                polls <= budget,
                run.len() == polls,
                forall|i: int| 0 <= i < run.len() ==> run[i] is Ready,
                producer.answered() == old(producer).answered() + run,
                self.lease()@ == after_run(old(self).lease()@, run),
                self.record() == old(self).record() + insertions(yielded(run)),
                *final(self.lease()) == *final(old(self).lease()),
            decreases budget - polls,
        {
            let outcome = producer.poll_next();
            proof {
                run_goes_on(old(self).lease()@, run, outcome);
                requests_go_on(old(self).record(), run, outcome);
                assert(old(producer).answered() + run.push(outcome) =~= (old(producer).answered()
                    + run).push(outcome));
                run = run.push(outcome);
            }
            let action = self.advance(outcome);
            polls += 1;
            match action {
                Action::PollAgain => {},
                Action::Suspend | Action::Complete => {
                    assert(answers_since(old(producer).answered(), producer.answered()) =~= run);
                    return action;
                },
            }
        }
        assert(answers_since(old(producer).answered(), producer.answered()) =~= run);
        Action::PollAgain
    }
}

impl<'a, T: 'a> StreamExtend<'a, T> for VecDeque<T> {
    type Operation = DequeExtend<'a, T>;

    open spec fn contents(&self) -> Seq<T> {
        self@
    }

    /// As many items as the lower bound of the hint announces.
    open spec fn reservation(hint: SizeHint) -> Option<usize> {
        Some(hint.0)
    }

    /// A hint that announces nothing is always admitted. Otherwise the
    /// items held and those announced are counted, and their bytes.
    fn admits(&self, hint: SizeHint) -> (admitted: bool)
        ensures
            admitted == can_reserve::<T>(self@.len(), Some(hint.0)),
    {
        if hint.0 == 0 {
            return true;
        }
        match self.len().checked_add(hint.0) {
            None => false,
            Some(items) => {
                let size: usize = core::mem::size_of::<T>();
                match items.checked_mul(size) {
                    None => {
                        assert(items * size_of::<T>() > isize::MAX);
                        false
                    },
                    Some(bytes) => {
                        let limit: usize = isize::MAX as usize;
                        bytes <= limit
                    },
                }
            },
        }
    }

    /// Asks the deque, once and before any insertion, to reserve room for
    /// as many items as the lower bound of `hint` announces. What the deque
    /// holds when the borrow ends is what the operation leaves.
    fn stream_extend(&'a mut self, hint: SizeHint) -> (operation: DequeExtend<'a, T>)
        ensures
            operation.lease()@ == begun(old(self)@, hint),
            operation.record() == seq![Request::<T>::Reserve(hint.0)],
            *final(operation.lease()) == *final(self),
    {
        let mut operation = DequeExtend::begin(self);
        operation.reserve(hint.0);
        operation
    }
}

} // verus!
