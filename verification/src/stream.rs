//! The extend contract: what a producer is and what it may answer, what an
//! operation asks of its container, what the driver of an operation has to
//! do next, and the two traits that tie a container to its operation.

use vstd::layout::size_of;
use vstd::prelude::*;

verus! {

/// What a producer answers when it is asked for its next item.
#[derive(Debug, PartialEq, Eq)]
pub enum Poll<T> {
    /// The next item of the sequence.
    Ready(T),
    /// No item yet: ask again later.
    Pending,
    /// The sequence has ended; no item will ever follow.
    Done,
}

/// What the driver of an operation has to do next.
#[derive(Debug, Clone, Copy, PartialEq, Eq, Structural)]
pub enum Action {
    /// Go on at once: the producer may have another item ready.
    PollAgain,
    /// Give control back to the scheduler, and go on when it resumes the
    /// operation.
    Suspend,
    /// Stop: the producer is exhausted and the operation has resolved.
    Complete,
}

/// What an operation asks of the container that it extends.
pub enum Request<T> {
    /// Room for so many more items.
    Reserve(usize),
    /// The insertion of an item, with the container's own primitive.
    Insert(T),
}

/// A producer's estimate of how many items it has left: a lower bound, and an
/// upper bound if it knows one. The estimate is advice and may be wrong.
pub type SizeHint = (usize, Option<usize>);

/// A lazily produced sequence of items, which may never end and may have
/// none.
///
/// A producer remembers where it stands. Nothing is asked of its answers
/// but that, once it has answered `Done`, it answers `Done` at every later
/// poll. Its size hint, if it has one, is for whoever begins an operation
/// to pass on.
pub trait Producer {
    /// The items of the sequence.
    type Item;

    /// Asks for the next item.
    fn poll_next(&mut self) -> Poll<Self::Item>;
}

/// A producer together with the record of what it has answered.
///
/// An operation polls its producer through the record, so that what the
/// operation has been told can be held against what it has done. The record
/// takes no room and no time when the program runs.
pub struct Recorded<P: Producer> {
    producer: P,
    answers: Ghost<Seq<Poll<P::Item>>>,
}

impl<P: Producer> Recorded<P> {
    /// The answers that the producer has given since the record began, first
    /// to last.
    pub closed spec fn answered(&self) -> Seq<Poll<P::Item>> {
        self.answers@
    }

    /// The producer that is recorded, as it stands.
    pub closed spec fn source(&self) -> P {
        self.producer
    }

    /// Begins a record for `producer`.
    pub fn new(producer: P) -> (recorded: Self)
        ensures
            recorded.answered() == Seq::<Poll<P::Item>>::empty(),
            recorded.source() == producer,
    {
        Recorded { producer, answers: Ghost(Seq::empty()) }
    }

    /// Asks the producer for its next item, and records the answer.
    pub fn poll_next(&mut self) -> (outcome: Poll<P::Item>)
        ensures
            final(self).answered() == old(self).answered().push(outcome),
    {
        let outcome = self.producer.poll_next();
        self.answers = Ghost(self.answers@.push(outcome));
        outcome
    }

    /// The producer, to look at.
    pub fn producer(&self) -> (producer: &P)
        ensures
            *producer == self.source(),
    {
        &self.producer
    }

    /// Ends the record and gives the producer back.
    pub fn into_producer(self) -> (producer: P)
        ensures
            producer == self.source(),
    {
        self.producer
    }
}

/// Whether a container that holds `held` items of type `T` can be asked for
/// `reservation`. No reservation, and one for no room, can always be asked
/// for. Otherwise the items held and those announced have to be a number
/// that the container can count, and their bytes a size that can be
/// allocated at all.
pub open spec fn can_reserve<T>(held: nat, reservation: Option<usize>) -> bool {
    match reservation {
        Some(room) => room > 0 ==> held + room <= usize::MAX && (held + room) * size_of::<T>()
            <= isize::MAX,
        None => true,
    }
}

/// The requests with which an operation begins: the reservation, where the
/// realization makes one, and nothing else.
pub open spec fn opening<T>(reservation: Option<usize>) -> Seq<Request<T>> {
    match reservation {
        Some(room) => seq![Request::Reserve(room)],
        None => Seq::empty(),
    }
}

/// The contents of a container once an operation has begun on it: they are
/// the contents it had, whatever the hint says.
pub open spec fn begun<T>(contents: Seq<T>, hint: SizeHint) -> Seq<T> {
    contents
}

/// The contents of a container after the outcome of one poll has been dealt
/// with: an item that is ready goes to the back, and nothing else changes.
pub open spec fn after_poll<T>(contents: Seq<T>, outcome: Poll<T>) -> Seq<T> {
    match outcome {
        Poll::Ready(item) => contents.push(item),
        Poll::Pending => contents,
        Poll::Done => contents,
    }
}

/// The requests that an operation has made once the outcome of one poll has
/// been dealt with: an item that is ready is one insertion more, and no
/// other outcome is a request.
pub open spec fn requests_after<T>(requests: Seq<Request<T>>, outcome: Poll<T>) -> Seq<
    Request<T>,
> {
    match outcome {
        Poll::Ready(item) => requests.push(Request::Insert(item)),
        Poll::Pending => requests,
        Poll::Done => requests,
    }
}

/// What the driver has to do after the outcome of one poll.
pub open spec fn action_for<T>(outcome: Poll<T>) -> Action {
    match outcome {
        Poll::Ready(_) => Action::PollAgain,
        Poll::Pending => Action::Suspend,
        Poll::Done => Action::Complete,
    }
}

/// The contents of a container after an operation on it has been driven
/// through `run`, the outcomes of successive polls: each outcome is dealt
/// with in turn, until the operation says that it is complete or the run
/// ends.
pub open spec fn after_run<T>(contents: Seq<T>, run: Seq<Poll<T>>) -> Seq<T>
    decreases run.len(),
{
    if run.len() == 0 {
        contents
    } else if action_for(run.first()) == Action::Complete {
        after_poll(contents, run.first())
    } else {
        after_run(after_poll(contents, run.first()), run.drop_first())
    }
}

/// The items that a producer yields over `run`, in the order of production:
/// those that it makes ready before it first reports exhaustion.
pub open spec fn yielded<T>(run: Seq<Poll<T>>) -> Seq<T>
    decreases run.len(),
{
    if run.len() == 0 {
        Seq::empty()
    } else {
        match run.first() {
            Poll::Ready(item) => seq![item] + yielded(run.drop_first()),
            Poll::Pending => yielded(run.drop_first()),
            Poll::Done => Seq::empty(),
        }
    }
}

/// One insertion for each of `items`, in their order.
pub open spec fn insertions<T>(items: Seq<T>) -> Seq<Request<T>> {
    Seq::new(items.len(), |i: int| Request::Insert(items[i]))
}

/// The answers that a record holds beyond those that it held at an earlier
/// moment: `later` without its first `earlier.len()` answers.
pub open spec fn answers_since<T>(earlier: Seq<Poll<T>>, later: Seq<Poll<T>>) -> Seq<Poll<T>> {
    later.skip(earlier.len() as int)
}

/// Whether `run` can be the polls of one turn of an operation that is
/// allowed `budget` polls and ends the turn with `action`. A turn goes on
/// while items are ready and the budget lasts: every outcome but the last
/// is an item, and the action is the one for the last outcome, or
/// `PollAgain` where the budget allowed no poll at all. A turn that ends
/// with `PollAgain` has used up its budget.
pub open spec fn turn<T>(run: Seq<Poll<T>>, budget: nat, action: Action) -> bool {
    &&& run.len() <= budget
    &&& forall|i: int| 0 <= i < run.len() - 1 ==> run[i] is Ready
    &&& action == if run.len() == 0 {
        Action::PollAgain
    } else {
        action_for(run.last())
    }
    &&& action == Action::PollAgain ==> run.len() == budget
}

/// An extend operation in progress on a container that keeps its items in the
/// order of insertion.
///
/// The operation holds the exclusive borrow of its container and the record
/// of what it has asked of the container, and nothing else: where the
/// producer stands is the producer's own business. Between two insertions
/// the container is whole, so the operation can be dropped at any moment,
/// and the container then keeps what has been inserted.
pub trait ExtendOperation<T> {
    /// The items of the borrowed container, in iteration order.
    spec fn contents(&self) -> Seq<T>;

    /// The requests that the operation has made of its container since it
    /// began, first to last.
    spec fn requests(&self) -> Seq<Request<T>>;

    /// Deals with the outcome of one poll of the producer and says what the
    /// driver has to do next. An item that is ready is inserted with the
    /// container's own insertion primitive; no other outcome touches the
    /// container.
    fn advance(&mut self, outcome: Poll<T>) -> (action: Action)
        ensures
            final(self).contents() == after_poll(old(self).contents(), outcome),
            final(self).requests() == requests_after(old(self).requests(), outcome),
            action == action_for(outcome),
    ;

    /// One turn of the operation, from the moment the scheduler resumes it
    /// to the moment it gives control back: polls `producer` and deals with
    /// each outcome, until the producer is not ready or is exhausted, or
    /// `budget` polls have been made. The answers that the record of the
    /// producer gains in the turn are the run of the turn, and the container
    /// ends the turn with what that run makes of it: no answer is asked for
    /// and then dropped, and none is made up. The container is asked for the
    /// insertion of each item that the run yields, and for nothing else.
    fn resume<P: Producer<Item = T>>(
        &mut self,
        producer: &mut Recorded<P>,
        budget: usize,
    ) -> (action: Action)
        ensures
            final(producer).answered() == old(producer).answered() + answers_since(
                old(producer).answered(),
                final(producer).answered(),
            ),
            turn(
                answers_since(old(producer).answered(), final(producer).answered()),
                budget as nat,
                action,
            ),
            final(self).contents() == after_run(
                old(self).contents(),
                answers_since(old(producer).answered(), final(producer).answered()),
            ),
            final(self).requests() == old(self).requests() + insertions(
                yielded(answers_since(old(producer).answered(), final(producer).answered())),
            ),
    ;
}

/// A growable container that keeps its items in the order of insertion and
/// can be extended from a producer.
///
/// `stream_extend` is the one operation of the contract, and `admits` tells
/// whether it can begin. The realization for a container chooses the
/// insertion primitive and decides whether the hint is worth a reservation;
/// neither choice shows in the contents.
pub trait StreamExtend<'a, T>: Sized {
    /// The operation that `stream_extend` begins.
    type Operation: ExtendOperation<T>;

    /// The items of the container, in iteration order.
    spec fn contents(&self) -> Seq<T>;

    /// The room, counted in items, that the realization asks the container
    /// to reserve when an operation begins with `hint`, if it asks for any.
    spec fn reservation(hint: SizeHint) -> Option<usize>;

    /// Whether an operation can begin on this container with `hint`: whether
    /// the reservation that goes with the hint can be asked for.
    fn admits(&self, hint: SizeHint) -> (admitted: bool)
        ensures
            admitted == can_reserve::<T>(self.contents().len(), Self::reservation(hint)),
    ;

    /// Begins an extend operation on this container. `hint` is the
    /// producer's size hint. The operation keeps the container borrowed
    /// until it is dropped.
    ///
    /// The reservation, where the realization makes one, is the one request
    /// that the operation has made when it begins, and it has to be one
    /// that can be asked for: `admits` tells.
    fn stream_extend(&'a mut self, hint: SizeHint) -> (operation: Self::Operation)
        requires
            can_reserve::<T>(old(self).contents().len(), Self::reservation(hint)),
        ensures
            operation.contents() == begun(old(self).contents(), hint),
            operation.requests() == opening::<T>(Self::reservation(hint)),
    ;
}

} // verus!
