use std::collections::VecDeque;
use stream_extend::collections::linked_list::LinkedList;
use stream_extend::stream::{
    Action, ExtendOperation, Poll, Producer, Recorded, SizeHint, StreamExtend,
};

/// A producer that gives the answers it was made with, one per poll, and
/// reports exhaustion once they are used up. It counts its polls.
struct Scripted<T> {
    answers: VecDeque<Poll<T>>,
    hint: SizeHint,
    polls: usize,
}

impl<T> Scripted<T> {
    /// The producer, under a record of its answers.
    fn new(answers: Vec<Poll<T>>, hint: SizeHint) -> Recorded<Self> {
        Recorded::new(Scripted { answers: VecDeque::from(answers), hint, polls: 0 })
    }
}

impl<T> Producer for Scripted<T> {
    type Item = T;

    fn poll_next(&mut self) -> Poll<T> {
        self.polls += 1;
        self.answers.pop_front().unwrap_or(Poll::Done)
    }
}

/// A producer that never ends and is always ready: it counts up from zero.
struct Counter {
    next: u64,
}

impl Producer for Counter {
    type Item = u64;

    fn poll_next(&mut self) -> Poll<u64> {
        let item = self.next;
        self.next += 1;
        Poll::Ready(item)
    }
}

#[test]
fn resume_scenario_deque_three_items_with_exact_hint() {
    let mut producer = Scripted::new(
        vec![Poll::Ready(1), Poll::Ready(2), Poll::Ready(3)],
        (3, Some(3)),
    );
    let mut deque: VecDeque<i32> = VecDeque::new();
    {
        let mut operation = deque.stream_extend(producer.producer().hint);
        assert!(operation.target().capacity() >= 3);
        assert_eq!(producer.producer().polls, 0);
        assert!(operation.target().is_empty());
        assert_eq!(operation.resume(&mut producer, usize::MAX), Action::Complete);
    }
    assert_eq!(deque, VecDeque::from(vec![1, 2, 3]));
    assert_eq!(producer.producer().polls, 4);
}

#[test]
fn resume_scenario_list_three_items() {
    let mut producer = Scripted::new(
        vec![Poll::Ready(1), Poll::Ready(2), Poll::Ready(3)],
        (3, Some(3)),
    );
    let mut list: LinkedList<i32> = LinkedList::new();
    {
        let mut operation = list.stream_extend(producer.producer().hint);
        assert_eq!(operation.resume(&mut producer, usize::MAX), Action::Complete);
    }
    assert_eq!(list.into_vec(), vec![1, 2, 3]);
    assert_eq!(producer.producer().polls, 4);
}

#[test]
fn resume_suspends_when_the_producer_is_not_ready() {
    let mut producer = Scripted::new(
        vec![
            Poll::Ready('a'),
            Poll::Ready('b'),
            Poll::Pending,
            Poll::Ready('c'),
            Poll::Pending,
            Poll::Pending,
            Poll::Ready('d'),
            Poll::Done,
        ],
        (0, None),
    );
    let mut deque: VecDeque<char> = VecDeque::new();
    let mut operation = deque.stream_extend(producer.producer().hint);

    assert_eq!(operation.resume(&mut producer, usize::MAX), Action::Suspend);
    assert_eq!(producer.producer().polls, 3);
    assert_eq!(Vec::from(operation.target().clone()), vec!['a', 'b']);

    assert_eq!(operation.resume(&mut producer, usize::MAX), Action::Suspend);
    assert_eq!(producer.producer().polls, 5);
    assert_eq!(Vec::from(operation.target().clone()), vec!['a', 'b', 'c']);

    assert_eq!(operation.resume(&mut producer, usize::MAX), Action::Suspend);
    assert_eq!(producer.producer().polls, 6);
    assert_eq!(Vec::from(operation.target().clone()), vec!['a', 'b', 'c']);

    assert_eq!(operation.resume(&mut producer, usize::MAX), Action::Complete);
    assert_eq!(producer.producer().polls, 8);
    operation.abandon();
    assert_eq!(Vec::from(deque), vec!['a', 'b', 'c', 'd']);
}

#[test]
fn resume_stops_polling_at_exhaustion() {
    let mut producer = Scripted::new(
        vec![Poll::Ready(1), Poll::Done, Poll::Ready(2), Poll::Ready(3)],
        (1, Some(1)),
    );
    let mut list: LinkedList<i32> = LinkedList::new();
    {
        let mut operation = list.stream_extend(producer.producer().hint);
        assert_eq!(operation.resume(&mut producer, usize::MAX), Action::Complete);
    }
    assert_eq!(producer.producer().polls, 2);
    assert_eq!(producer.producer().answers.len(), 2);
    assert_eq!(list.into_vec(), vec![1]);
}

#[test]
fn resume_with_an_empty_producer_is_noop() {
    let mut producer: Recorded<Scripted<i32>> = Scripted::new(vec![], (0, Some(0)));
    let mut deque = VecDeque::from(vec![4, 5]);
    {
        let mut operation = deque.stream_extend(producer.producer().hint);
        assert_eq!(operation.resume(&mut producer, usize::MAX), Action::Complete);
    }
    assert_eq!(producer.producer().polls, 1);
    assert_eq!(deque, VecDeque::from(vec![4, 5]));
    assert_eq!(deque.len(), 2);

    let mut list: LinkedList<i32> = LinkedList::new();
    list.push_back(6);
    let mut empty: Recorded<Scripted<i32>> = Scripted::new(vec![Poll::Done], (0, Some(0)));
    {
        let mut operation = list.stream_extend(empty.producer().hint);
        assert_eq!(operation.resume(&mut empty, 1), Action::Complete);
    }
    assert_eq!(list.len(), 1);
    assert_eq!(list.into_vec(), vec![6]);
}

#[test]
fn resume_keeps_within_its_budget() {
    let mut producer = Recorded::new(Counter { next: 0 });
    let mut deque: VecDeque<u64> = VecDeque::new();
    let mut operation = deque.stream_extend((0, None));

    assert_eq!(operation.resume(&mut producer, 2), Action::PollAgain);
    assert_eq!(producer.producer().next, 2);
    assert_eq!(Vec::from(operation.target().clone()), vec![0, 1]);

    assert_eq!(operation.resume(&mut producer, 3), Action::PollAgain);
    assert_eq!(producer.producer().next, 5);
    assert_eq!(Vec::from(operation.target().clone()), vec![0, 1, 2, 3, 4]);

    assert_eq!(operation.resume(&mut producer, 1), Action::PollAgain);
    assert_eq!(producer.producer().next, 6);
    operation.abandon();
    assert_eq!(Vec::from(deque), vec![0, 1, 2, 3, 4, 5]);
}

#[test]
fn resume_without_budget_does_not_poll() {
    let mut producer = Scripted::new(vec![Poll::Ready(1), Poll::Done], (1, Some(1)));
    let mut list: LinkedList<i32> = LinkedList::new();
    {
        let mut operation = list.stream_extend(producer.producer().hint);
        assert_eq!(operation.resume(&mut producer, 0), Action::PollAgain);
        assert_eq!(operation.resume(&mut producer, 0), Action::PollAgain);
    }
    assert_eq!(producer.producer().polls, 0);
    assert_eq!(list.len(), 0);
}

#[test]
fn resume_ends_the_turn_where_the_budget_and_the_producer_end_together() {
    let mut producer = Scripted::new(vec![Poll::Ready(1), Poll::Pending, Poll::Done], (1, None));
    let mut deque: VecDeque<i32> = VecDeque::new();
    let mut operation = deque.stream_extend(producer.producer().hint);
    // The second poll is the last that the budget allows, and it is not ready.
    assert_eq!(operation.resume(&mut producer, 2), Action::Suspend);
    assert_eq!(producer.producer().polls, 2);
    // The one poll that the budget allows meets the end.
    assert_eq!(operation.resume(&mut producer, 1), Action::Complete);
    assert_eq!(producer.producer().polls, 3);
    operation.abandon();
    assert_eq!(Vec::from(deque), vec![1]);
}

#[test]
fn resume_in_small_turns_gives_what_one_turn_gives() {
    let answers = || {
        vec![
            Poll::Ready(1),
            Poll::Ready(2),
            Poll::Pending,
            Poll::Ready(3),
            Poll::Ready(4),
            Poll::Ready(5),
            Poll::Done,
        ]
    };
    for budget in 1..=8usize {
        let mut producer = Scripted::new(answers(), (5, Some(5)));
        let mut list: LinkedList<i32> = LinkedList::new();
        list.push_back(0);
        let mut turns = 0;
        {
            let mut operation = list.stream_extend(producer.producer().hint);
            loop {
                turns += 1;
                if operation.resume(&mut producer, budget) == Action::Complete {
                    break;
                }
                assert!(turns < 100);
            }
        }
        assert_eq!(producer.producer().polls, 7);
        assert_eq!(list.into_vec(), vec![0, 1, 2, 3, 4, 5]);
    }
}

#[test]
fn resume_cancellation_leaves_prefix() {
    let mut producer = Scripted::new(
        vec![
            Poll::Ready(10),
            Poll::Ready(20),
            Poll::Pending,
            Poll::Ready(30),
            Poll::Done,
        ],
        (3, Some(3)),
    );
    let mut deque = VecDeque::from(vec![1, 2]);
    {
        let mut operation = deque.stream_extend(producer.producer().hint);
        assert_eq!(operation.resume(&mut producer, usize::MAX), Action::Suspend);
        // Dropped while suspended: the producer has an item left.
    }
    assert_eq!(deque, VecDeque::from(vec![1, 2, 10, 20]));
    assert_eq!(producer.producer().answers.len(), 2);
}

#[test]
fn resume_reservation_is_non_binding() {
    let hints: Vec<SizeHint> = vec![(0, None), (1, Some(1)), (3, Some(3)), (64, Some(2)), (500, None)];
    for hint in hints {
        let mut producer =
            Scripted::new(vec![Poll::Ready(7), Poll::Ready(8), Poll::Ready(9)], hint);
        let mut deque = VecDeque::from(vec![6]);
        {
            let mut operation = deque.stream_extend(producer.producer().hint);
            assert!(operation.target().capacity() >= 1 + hint.0);
            assert_eq!(operation.resume(&mut producer, usize::MAX), Action::Complete);
        }
        assert_eq!(deque, VecDeque::from(vec![6, 7, 8, 9]));
    }
}

#[test]
fn resume_after_completion_with_a_well_behaved_producer_changes_nothing() {
    let mut producer = Scripted::new(vec![Poll::Ready(1), Poll::Done], (1, Some(1)));
    let mut deque: VecDeque<i32> = VecDeque::new();
    let mut operation = deque.stream_extend(producer.producer().hint);
    assert_eq!(operation.resume(&mut producer, usize::MAX), Action::Complete);
    assert_eq!(operation.resume(&mut producer, usize::MAX), Action::Complete);
    assert_eq!(operation.resume(&mut producer, usize::MAX), Action::Complete);
    operation.abandon();
    assert_eq!(Vec::from(deque), vec![1]);
}

#[test]
fn record_hands_on_every_answer_and_gives_the_producer_back() {
    let mut producer = Scripted::new(vec![Poll::Ready(1), Poll::Pending], (1, None));
    assert_eq!(producer.poll_next(), Poll::Ready(1));
    assert_eq!(producer.producer().polls, 1);
    assert_eq!(producer.poll_next(), Poll::Pending);
    assert_eq!(producer.poll_next(), Poll::Done);
    assert_eq!(producer.poll_next(), Poll::Done);
    let inner = producer.into_producer();
    assert_eq!(inner.polls, 4);
    assert_eq!(inner.hint, (1, None));
}

#[test]
fn resume_polls_exactly_as_often_as_it_deals_with_an_answer() {
    let mut producer = Scripted::new(
        vec![Poll::Ready(1), Poll::Ready(2), Poll::Ready(3), Poll::Pending, Poll::Ready(4)],
        (4, None),
    );
    let mut list: LinkedList<i32> = LinkedList::new();
    let mut operation = list.stream_extend((4, None));
    // Three items and the answer that ends the turn: four polls, three insertions.
    assert_eq!(operation.resume(&mut producer, 10), Action::Suspend);
    assert_eq!(producer.producer().polls, 4);
    assert_eq!(operation.target().len(), 3);
    // One item and the end: two polls, one insertion.
    assert_eq!(operation.resume(&mut producer, 10), Action::Complete);
    assert_eq!(producer.producer().polls, 6);
    assert_eq!(operation.target().len(), 4);
    operation.abandon();
    assert_eq!(list.into_vec(), vec![1, 2, 3, 4]);
}
