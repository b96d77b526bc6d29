//! The extend contract for a list that grows at its tail.

pub mod list;
pub mod operation;

pub use self::list::LinkedList;
pub use self::operation::ListExtend;

use crate::laws::{requests_go_on, run_goes_on};
use crate::stream::{
    action_for, after_poll, after_run, answers_since, begun, can_reserve, insertions, opening,
    requests_after, turn, yielded,
};
use crate::stream::{
    Action, ExtendOperation, Poll, Producer, Recorded, Request, SizeHint, StreamExtend,
};
use vstd::prelude::*;

verus! {

impl<'a, T> ExtendOperation<T> for ListExtend<'a, T> {
    open spec fn contents(&self) -> Seq<T> {
        self.lease()@
    }

    open spec fn requests(&self) -> Seq<Request<T>> {
        self.record()
    }

    /// An item that is ready is appended at the tail of the list. The
    /// operation goes on borrowing the same list.
    fn advance(&mut self, outcome: Poll<T>) -> (action: Action)
        ensures
            final(self).lease()@ == after_poll(old(self).lease()@, outcome),
            final(self).record() == requests_after(old(self).record(), outcome),
            action == action_for(outcome),
            *final(final(self).lease()) == *final(old(self).lease()),
    {
        match outcome {
            Poll::Ready(item) => {
                self.push_back(item);
                Action::PollAgain
            },
            Poll::Pending => Action::Suspend,
            Poll::Done => Action::Complete,
        }
    }

    /// The operation goes on borrowing the same list.
    fn resume<P: Producer<Item = T>>(
        &mut self,
        producer: &mut Recorded<P>,
        budget: usize,
    ) -> (action: Action)
        ensures
            final(producer).answered() == old(producer).answered() + answers_since(
                old(producer).answered(),
                final(producer).answered(),
            ),
            turn(
                answers_since(old(producer).answered(), final(producer).answered()),
                budget as nat,
                action,
            ),
            final(self).lease()@ == after_run(
                old(self).lease()@,
                answers_since(old(producer).answered(), final(producer).answered()),
            ),
            final(self).record() == old(self).record() + insertions(
                yielded(answers_since(old(producer).answered(), final(producer).answered())),
            ),
            *final(final(self).lease()) == *final(old(self).lease()),
    {
        let ghost mut run: Seq<Poll<T>> = Seq::empty();
        let mut polls: usize = 0;
        assert(self.record() =~= old(self).record() + insertions(yielded(run)));
        while polls < budget
            invariant
                polls <= budget,
                run.len() == polls,
                forall|i: int| 0 <= i < run.len() ==> run[i] is Ready,
                producer.answered() == old(producer).answered() + run,
                self.lease()@ == after_run(old(self).lease()@, run),
                self.record() == old(self).record() + insertions(yielded(run)),
                *final(self.lease()) == *final(old(self).lease()),
            decreases budget - polls,
        {
            let outcome = producer.poll_next();
            proof {
                run_goes_on(old(self).lease()@, run, outcome);
                requests_go_on(old(self).record(), run, outcome);
                assert(old(producer).answered() + run.push(outcome) =~= (old(producer).answered()
                    + run).push(outcome));
                run = run.push(outcome);
            }
            let action = self.advance(outcome);
            polls += 1;
            match action {
                Action::PollAgain => {},
                Action::Suspend | Action::Complete => {
                    assert(answers_since(old(producer).answered(), producer.answered()) =~= run);
                    return action;
                },
            }
        }
        assert(answers_since(old(producer).answered(), producer.answered()) =~= run);
        Action::PollAgain
    }
}

impl<'a, T: 'a> StreamExtend<'a, T> for LinkedList<T> {
    type Operation = ListExtend<'a, T>;

    open spec fn contents(&self) -> Seq<T> {
        self@
    }

    /// None, whatever the hint.
    open spec fn reservation(hint: SizeHint) -> Option<usize> {
        None
    }

    /// Every hint is admitted: nothing is reserved for it.
    fn admits(&self, hint: SizeHint) -> (admitted: bool)
        ensures
            admitted,
    {
        true
    }

    /// Begins at once and asks nothing of the list: a list has no room to
    /// reserve, so `hint` goes unused. What the list holds when the borrow
    /// ends is what the operation leaves.
    fn stream_extend(&'a mut self, hint: SizeHint) -> (operation: ListExtend<'a, T>)
        ensures
            operation.lease()@ == begun(old(self)@, hint),
            operation.record() == Seq::<Request<T>>::empty(),
            *final(operation.lease()) == *final(self),
    {
        ListExtend::begin(self)
    }
}

} // verus!
