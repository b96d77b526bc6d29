//! Whole operations: what a container holds after an operation has been
//! driven through a run of polls, and the laws that hold of it.
//!
//! A run is the sequence of outcomes that the producer gives, poll by poll.
//! The driver of an operation deals with them one after the other and stops
//! at the first `Done`, or earlier if the operation is abandoned.

use crate::stream::{
    action_for, after_poll, after_run, begun, can_reserve, insertions, opening, requests_after,
    turn, yielded,
};
use crate::stream::{Action, Poll, Request, SizeHint, StreamExtend};
use vstd::prelude::*;

verus! {

/// Whether the producer reports exhaustion within `run`, so that an operation
/// driven through `run` resolves.
pub open spec fn exhausted<T>(run: Seq<Poll<T>>) -> bool {
    exists|i: int| 0 <= i < run.len() && run[i] is Done
}

/// Whether the producer of `run` is well-behaved: once it has reported
/// exhaustion, it reports exhaustion at every later poll.
pub open spec fn well_behaved<T>(run: Seq<Poll<T>>) -> bool {
    forall|i: int, j: int| 0 <= i <= j < run.len() && run[i] is Done ==> run[j] is Done
}

/// The contents of a container after every outcome of `run` has been dealt
/// with, those that follow a `Done` too.
pub open spec fn after_all<T>(contents: Seq<T>, run: Seq<Poll<T>>) -> Seq<T>
    decreases run.len(),
{
    if run.len() == 0 {
        contents
    } else {
        after_all(after_poll(contents, run.first()), run.drop_first())
    }
}

/// The requests that an operation has made of its container after it has
/// been driven through `run`: each outcome is dealt with in turn, until the
/// operation says that it is complete or the run ends.
pub open spec fn requests_after_run<T>(requests: Seq<Request<T>>, run: Seq<Poll<T>>) -> Seq<
    Request<T>,
>
    decreases run.len(),
{
    if run.len() == 0 {
        requests
    } else if action_for(run.first()) == Action::Complete {
        requests_after(requests, run.first())
    } else {
        requests_after_run(requests_after(requests, run.first()), run.drop_first())
    }
}

/// An operation appends to the container what the producer yields, and does
/// nothing else to it.
pub proof fn run_appends_yield<T>(contents: Seq<T>, run: Seq<Poll<T>>)
    ensures
        after_run(contents, run) == contents + yielded(run),
    decreases run.len(),
{
    if run.len() > 0 {
        let rest = run.drop_first();
        match run.first() {
            Poll::Ready(item) => {
                run_appends_yield(contents.push(item), rest);
                assert(contents.push(item) + yielded(rest) =~= contents + (seq![item] + yielded(
                    rest,
                )));
            },
            Poll::Pending => {
                run_appends_yield(contents, rest);
            },
            Poll::Done => {},
        }
    }
}

/// An operation asks its container for the insertion of each item that the
/// producer yields, in the order of production, and for nothing else.
pub proof fn run_asks_for_yield<T>(requests: Seq<Request<T>>, run: Seq<Poll<T>>)
    ensures
        requests_after_run(requests, run) == requests + insertions(yielded(run)),
    decreases run.len(),
{
    if run.len() > 0 {
        let rest = run.drop_first();
        match run.first() {
            Poll::Ready(item) => {
                run_asks_for_yield(requests.push(Request::Insert(item)), rest);
                assert(requests.push(Request::Insert(item)) + insertions(yielded(rest))
                    =~= requests + insertions(seq![item] + yielded(rest)));
            },
            Poll::Pending => {
                run_asks_for_yield(requests, rest);
            },
            Poll::Done => {
                assert(requests + insertions(yielded(run)) =~= requests);
            },
        }
    } else {
        assert(requests + insertions(yielded(run)) =~= requests);
    }
}

/// Runs add up. An operation that has been driven through a run without a
/// `Done` and is then driven through a second run leaves what it leaves when
/// it is driven through the two runs as one.
pub proof fn runs_add_up<T>(contents: Seq<T>, first: Seq<Poll<T>>, second: Seq<Poll<T>>)
    requires
        forall|i: int| 0 <= i < first.len() ==> !(first[i] is Done),
    ensures
        after_run(after_run(contents, first), second) == after_run(contents, first + second),
    decreases first.len(),
{
    let whole = first + second;
    if first.len() == 0 {
        assert(whole =~= second);
    } else {
        let rest = first.drop_first();
        assert(whole.drop_first() =~= rest + second);
        assert forall|i: int| 0 <= i < rest.len() implies !(rest[i] is Done) by {
            assert(rest[i] == first[i + 1]);
        }
        runs_add_up(after_poll(contents, first.first()), rest, second);
    }
}

/// A run that has not met a `Done` goes on: one more outcome is dealt with
/// on top of what the run has made of the container.
pub proof fn run_goes_on<T>(contents: Seq<T>, run: Seq<Poll<T>>, outcome: Poll<T>)
    requires
        forall|i: int| 0 <= i < run.len() ==> !(run[i] is Done),
    ensures
        after_run(contents, run.push(outcome)) == after_poll(after_run(contents, run), outcome),
{
    let last = seq![outcome];
    let settled = after_poll(after_run(contents, run), outcome);
    runs_add_up(contents, run, last);
    assert(run + last =~= run.push(outcome));
    assert(after_run(settled, last.drop_first()) == settled);
}

/// A run that has not met a `Done` yields on: what one more outcome yields
/// comes after what the run has yielded.
pub proof fn yield_goes_on<T>(run: Seq<Poll<T>>, outcome: Poll<T>)
    requires
        forall|i: int| 0 <= i < run.len() ==> !(run[i] is Done),
    ensures
        yielded(run.push(outcome)) == yielded(run) + yielded(seq![outcome]),
    decreases run.len(),
{
    let longer = run.push(outcome);
    if run.len() == 0 {
        assert(longer =~= seq![outcome]);
        assert(yielded(run) + yielded(seq![outcome]) =~= yielded(seq![outcome]));
    } else {
        let rest = run.drop_first();
        assert(longer.drop_first() =~= rest.push(outcome));
        assert forall|i: int| 0 <= i < rest.len() implies !(rest[i] is Done) by {
            assert(rest[i] == run[i + 1]);
        }
        yield_goes_on(rest, outcome);
        match run.first() {
            Poll::Ready(item) => {
                assert(seq![item] + (yielded(rest) + yielded(seq![outcome])) =~= (seq![item]
                    + yielded(rest)) + yielded(seq![outcome]));
            },
            Poll::Pending => {},
            Poll::Done => {},
        }
    }
}

/// A run that has not met a `Done` goes on asking: one more outcome is
/// dealt with on top of the insertions that the run has asked for.
pub proof fn requests_go_on<T>(requests: Seq<Request<T>>, run: Seq<Poll<T>>, outcome: Poll<T>)
    requires
        forall|i: int| 0 <= i < run.len() ==> !(run[i] is Done),
    ensures
        requests + insertions(yielded(run.push(outcome))) == requests_after(
            requests + insertions(yielded(run)),
            outcome,
        ),
{
    yield_goes_on(run, outcome);
    let last = seq![outcome];
    assert(last.drop_first().len() == 0);
    assert(yielded(last.drop_first()) =~= Seq::<T>::empty());
    match outcome {
        Poll::Ready(item) => {
            assert(yielded(last) =~= seq![item]);
            assert(requests + insertions(yielded(run) + seq![item]) =~= (requests + insertions(
                yielded(run),
            )).push(Request::Insert(item)));
        },
        Poll::Pending => {
            assert(yielded(run) + yielded(last) =~= yielded(run));
        },
        Poll::Done => {
            assert(yielded(run) + yielded(last) =~= yielded(run));
        },
    }
}

/// What the producer has yielded by the time `polls` of its outcomes have
/// been seen is the beginning of all that it yields.
pub proof fn yield_grows<T>(run: Seq<Poll<T>>, polls: int)
    requires
        0 <= polls <= run.len(),
    ensures
        yielded(run.take(polls)).len() <= yielded(run).len(),
        yielded(run.take(polls)) == yielded(run).take(yielded(run.take(polls)).len() as int),
    decreases run.len(),
{
    if polls > 0 {
        let rest = run.drop_first();
        assert(run.take(polls).drop_first() =~= rest.take(polls - 1));
        yield_grows(rest, polls - 1);
        let before = yielded(rest.take(polls - 1));
        match run.first() {
            Poll::Ready(item) => {
                assert(seq![item] + before =~= (seq![item] + yielded(rest)).take(
                    before.len() as int + 1,
                ));
            },
            Poll::Pending => {},
            Poll::Done => {},
        }
    }
}

/// Polls that all report exhaustion leave the container as it is.
pub proof fn nothing_after_exhaustion<T>(contents: Seq<T>, run: Seq<Poll<T>>)
    requires
        forall|i: int| 0 <= i < run.len() ==> run[i] is Done,
    ensures
        after_all(contents, run) == contents,
    decreases run.len(),
{
    if run.len() > 0 {
        let rest = run.drop_first();
        assert forall|i: int| 0 <= i < rest.len() implies rest[i] is Done by {
            assert(rest[i] == run[i + 1]);
        }
        nothing_after_exhaustion(contents, rest);
    }
}

/// All that a producer yields, it has yielded by the time it reports
/// exhaustion.
pub proof fn yield_ends_at_exhaustion<T>(run: Seq<Poll<T>>, polls: int)
    requires
        0 < polls <= run.len(),
        run[polls - 1] is Done,
    ensures
        yielded(run.take(polls)) == yielded(run),
    decreases run.len(),
{
    let seen = run.take(polls);
    assert(seen.first() == run.first());
    if polls > 1 {
        let rest = run.drop_first();
        assert(seen.drop_first() =~= rest.take(polls - 1));
        assert(rest[polls - 2] == run[polls - 1]);
        yield_ends_at_exhaustion(rest, polls - 1);
    }
}

/// Order preservation. Into a container that starts empty, an operation
/// that is driven until it resolves puts exactly the items that the
/// producer yields, in the order in which it yields them: it has done so at
/// the poll at which it resolves, and polls made after that change nothing.
pub proof fn order_preservation<T>(run: Seq<Poll<T>>)
    requires
        exhausted(run),
    ensures
        after_run(Seq::<T>::empty(), run) == yielded(run),
        exists|last: int|
            0 <= last < run.len() && (#[trigger] run[last]) is Done && after_run(
                Seq::<T>::empty(),
                run.take(last + 1),
            ) == yielded(run),
{
    run_appends_yield(Seq::<T>::empty(), run);
    let last = choose|i: int| 0 <= i < run.len() && run[i] is Done;
    yield_ends_at_exhaustion(run, last + 1);
    run_appends_yield(Seq::<T>::empty(), run.take(last + 1));
}

/// Non-destructive extension. After an operation the container holds the
/// items that it held before, unchanged and in their order, followed by the
/// items that the producer yields, in theirs.
pub proof fn non_destructive_extension<T>(existing: Seq<T>, run: Seq<Poll<T>>)
    ensures
        after_run(existing, run) == existing + yielded(run),
        after_run(existing, run).len() == existing.len() + yielded(run).len(),
        after_run(existing, run).take(existing.len() as int) == existing,
        after_run(existing, run).skip(existing.len() as int) == yielded(run),
{
    run_appends_yield(existing, run);
}

/// An empty producer is a no-op. Where the producer reports exhaustion at
/// the first poll, the operation leaves the contents, and so the length, of
/// the container as they were.
pub proof fn empty_producer_is_noop<T>(contents: Seq<T>, run: Seq<Poll<T>>)
    requires
        run.len() > 0,
        run.first() is Done,
    ensures
        after_run(contents, run) == contents,
        after_run(contents, run).len() == contents.len(),
{
}

/// Reservation is non-binding. Two operations that begin on the same
/// contents of a container `C` and are driven through the same run leave
/// the same contents, whatever hint each of them was given: a hint of
/// nothing, one that counts too few items and one that counts too many. The
/// hints are such that an operation can begin with them.
pub proof fn reservation_is_non_binding<'a, T, C: StreamExtend<'a, T>>(
    contents: Seq<T>,
    first: SizeHint,
    second: SizeHint,
    run: Seq<Poll<T>>,
)
    requires
        can_reserve::<T>(contents.len(), C::reservation(first)),
        can_reserve::<T>(contents.len(), C::reservation(second)),
    ensures
        after_run(begun(contents, first), run) == after_run(begun(contents, second), run),
{
}

/// One reservation at most, and before any insertion. Of an operation that
/// has been driven through a run, the requests are those with which it
/// began, which are the reservation where the realization makes one and
/// nothing where it makes none, and after them one insertion for each item
/// that the producer yields: however many items there are, no reservation
/// follows the first insertion.
pub proof fn reservation_comes_first<T>(reservation: Option<usize>, run: Seq<Poll<T>>)
    ensures
        requests_after_run(opening::<T>(reservation), run) == opening::<T>(reservation)
            + insertions(yielded(run)),
        reservation matches Some(room) ==> requests_after_run(opening::<T>(reservation), run)
            == seq![Request::<T>::Reserve(room)] + insertions(yielded(run)),
        reservation is None ==> requests_after_run(opening::<T>(reservation), run) == insertions(
            yielded(run),
        ),
{
    run_asks_for_yield(opening::<T>(reservation), run);
    assert(Seq::<Request<T>>::empty() + insertions(yielded(run)) =~= insertions(yielded(run)));
}

/// Cancellation leaves a valid prefix. An operation that is abandoned when
/// `polls` outcomes of `run` have been dealt with leaves the container with
/// the items that it held before, followed by the items inserted so far;
/// and these, `k` of them, are the first `k` items that the producer yields
/// over the whole run.
pub proof fn cancellation_leaves_prefix<T>(existing: Seq<T>, run: Seq<Poll<T>>, polls: int)
    requires
        0 <= polls <= run.len(),
    ensures
        yielded(run.take(polls)).len() <= yielded(run).len(),
        after_run(existing, run.take(polls)) == existing + yielded(run).take(
            yielded(run.take(polls)).len() as int,
        ),
{
    yield_grows(run, polls);
    run_appends_yield(existing, run.take(polls));
}

/// Exhaustion is final. With a well-behaved producer it makes no difference
/// to the container whether the driver stops at the first `Done` or goes on
/// polling: an operation needs no memory of having completed.
pub proof fn exhaustion_is_final<T>(contents: Seq<T>, run: Seq<Poll<T>>)
    requires
        well_behaved(run),
    ensures
        after_all(contents, run) == after_run(contents, run),
    decreases run.len(),
{
    if run.len() > 0 {
        let rest = run.drop_first();
        assert forall|i: int, j: int| 0 <= i <= j < rest.len() && rest[i] is Done implies rest[j]
            is Done by {
            assert(rest[i] == run[i + 1]);
            assert(rest[j] == run[j + 1]);
        }
        match run.first() {
            Poll::Done => {
                assert forall|j: int| 0 <= j < rest.len() implies rest[j] is Done by {
                    assert(rest[j] == run[j + 1]);
                }
                nothing_after_exhaustion(contents, rest);
            },
            _ => {
                exhaustion_is_final(after_poll(contents, run.first()), rest);
            },
        }
    }
}

/// Turns add up. After a turn that has not completed the operation, the
/// next turn goes on where the first one stopped: the two leave what one
/// turn through both their polls leaves.
pub proof fn turns_add_up<T>(
    contents: Seq<T>,
    first: Seq<Poll<T>>,
    budget: nat,
    action: Action,
    second: Seq<Poll<T>>,
)
    requires
        turn(first, budget, action),
        action != Action::Complete,
    ensures
        after_run(after_run(contents, first), second) == after_run(contents, first + second),
{
    assert forall|i: int| 0 <= i < first.len() implies !(first[i] is Done) by {
        if i == first.len() - 1 {
            assert(first[i] == first.last());
        }
    }
    runs_add_up(contents, first, second);
}

} // verus!
