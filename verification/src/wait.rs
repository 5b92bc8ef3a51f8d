//! A wait group: a producer announces how many results it expects, workers
//! post them in any order, and a consumer takes them one at a time.

use std::sync::atomic::{AtomicUsize, Ordering};
use std::sync::Arc;
use tokio::sync::mpsc::error::SendError;
use tokio::sync::mpsc::{UnboundedReceiver, UnboundedSender};
use vstd::prelude::*;

verus! {

#[verifier::external_type_specification]
#[verifier::external_body]
#[verifier::reject_recursive_types(T)]
pub struct ExUnboundedSender<T>(UnboundedSender<T>);

#[verifier::external_type_specification]
#[verifier::external_body]
#[verifier::reject_recursive_types(T)]
pub struct ExUnboundedReceiver<T>(UnboundedReceiver<T>);

#[verifier::external_type_specification]
#[verifier::external_body]
#[verifier::reject_recursive_types(T)]
pub struct ExSendError<T>(SendError<T>);

/// `tokio::sync::mpsc::unbounded_channel` makes a channel and hands out its
/// two ends.  Nothing is claimed of them.
pub assume_specification<T>[ tokio::sync::mpsc::unbounded_channel::<T> ]() -> (UnboundedSender<T>, UnboundedReceiver<T>);

/// `UnboundedSender::send` queues a message, or hands it back where the
/// receiving end is closed.  Nothing is claimed of which.
pub assume_specification<T>[ UnboundedSender::<T>::send ](sender: &UnboundedSender<T>, message: T) -> Result<
    (),
    SendError<T>,
>;

/// What the consumer of a wait group does next.
#[derive(Debug, Clone, Copy, PartialEq, Eq)]
pub enum WaitStep {
    /// Take the next result from the queue.
    Receive,
    /// Close the queue and discard whatever is still in it.
    Drain,
    /// Hand the result taken to the caller.
    Done,
}

/// The step that follows taking `item` from the queue: the queue is drained
/// once it has ended, or once a result is there and one is all that is asked
/// for.
pub open spec fn step_after<T>(item: Option<Option<T>>, only_one: bool) -> WaitStep {
    match item {
        Some(result) => if result is Some && only_one {
            WaitStep::Drain
        } else {
            WaitStep::Done
        },
        None => WaitStep::Drain,
    }
}

#[verifier::reject_recursive_types(T)]
pub struct Wait<T> {
    count: AtomicUsize,
    queue_sender: UnboundedSender<Option<T>>,
}

impl<T> Wait<T> {
    /// The counter of the results that are still expected.
    pub closed spec fn counter(&self) -> AtomicUsize {
        self.count
    }

    /// The sending end of the queue of results.
    pub closed spec fn sender(&self) -> UnboundedSender<Option<T>> {
        self.queue_sender
    }

    /// True when 1 was taken from the counter, which held `before` then.
    pub open spec fn took_one(&self, before: usize) -> bool {
        call_ensures(AtomicUsize::fetch_sub, (&self.counter(), 1usize, Ordering::Relaxed), before)
    }

    /// True when `val` was handed to the sending end of the queue, which
    /// answered with `sent`.
    pub open spec fn posted(&self, val: Option<T>, sent: Result<(), SendError<Option<T>>>) -> bool {
        call_ensures(UnboundedSender::<Option<T>>::send, (&self.sender(), val), sent)
    }

    /// A wait group that expects nothing yet, with the receiving end of its
    /// queue: the counter is a new one that starts at 0, and the two ends
    /// are those of one new channel.
    pub fn new() -> (made: (Arc<Self>, UnboundedReceiver<Option<T>>))
        ensures
            call_ensures(AtomicUsize::new, (0usize,), made.0.counter()),
            call_ensures(tokio::sync::mpsc::unbounded_channel::<Option<T>>, (), (made.0.sender(), made.1)),
    {
        let (queue_sender, queue_reader) = tokio::sync::mpsc::unbounded_channel();
        let ret = Self { count: AtomicUsize::new(0), queue_sender };
        (Arc::new(ret), queue_reader)
    }

    /// The number of results that are still expected: what the counter
    /// holds when it is read.
    pub fn count(&self) -> (count: usize)
        ensures
            call_ensures(AtomicUsize::load, (&self.counter(), Ordering::Relaxed), count),
    {
        self.count.load(Ordering::Relaxed)
    }

    /// Announces one more result; returns how many were expected before:
    /// what the counter held when 1 was added to it.
    pub fn request(&self) -> (before: usize)
        ensures
            call_ensures(AtomicUsize::fetch_add, (&self.counter(), 1usize, Ordering::Relaxed), before),
    {
        self.count.fetch_add(1, Ordering::Relaxed)
    }

    /// Announces one more result; returns how many are expected with it:
    /// one more than the counter held when 1 was added to it.
    pub fn request_immediate(&self) -> (after: usize)
        ensures
            exists|before: usize| #[trigger]
                call_ensures(AtomicUsize::fetch_add, (&self.counter(), 1usize, Ordering::Relaxed), before) && after
                    == (if before == usize::MAX {
                    0
                } else {
                    before + 1
                }),
    {
        self.count.fetch_add(1, Ordering::Relaxed).wrapping_add(1)
    }

    /// Posts a result: hands it to the sending end of the queue.  A closed
    /// queue is no failure.
    pub fn respond(&self, val: Option<T>)
        ensures
            exists|sent: Result<(), SendError<Option<T>>>| #[trigger] self.posted(val, sent),
    {
        let sent = self.queue_sender.send(val);
        assert(self.posted(val, sent));
        match sent {
            Ok(()) => (),
            Err(_) => (),
        }
    }

    /// The first step of a wait, given the number of results expected:
    /// with none expected the queue is drained at once.
    pub fn first_step(count: usize) -> (step: WaitStep)
        ensures
            step == (if count == 0 {
                WaitStep::Drain
            } else {
                WaitStep::Receive
            }),
    {
        if count == 0 {
            WaitStep::Drain
        } else {
            WaitStep::Receive
        }
    }

    /// The step that follows taking `item` from the queue.
    pub fn next_step(item: &Option<Option<T>>, only_one: bool) -> (step: WaitStep)
        ensures
            step == step_after(*item, only_one),
    {
        match item {
            Some(result) => if result.is_some() && only_one {
                WaitStep::Drain
            } else {
                WaitStep::Done
            },
            None => WaitStep::Drain,
        }
    }

    /// Begins a wait: reads the counter and tells whether to take a result
    /// or, with none expected, to drain the queue.
    pub fn begin(&self) -> (step: WaitStep)
        ensures
            exists|count: usize| #[trigger]
                call_ensures(AtomicUsize::load, (&self.counter(), Ordering::Relaxed), count) && step == (if count
                    == 0 {
                    WaitStep::Drain
                } else {
                    WaitStep::Receive
                }),
    {
        Self::first_step(self.count.load(Ordering::Relaxed))
    }

    /// Accounts for what was taken from the queue and tells what to do
    /// next: where there was a result, 1 is taken from the counter.
    pub fn received(&self, item: &Option<Option<T>>, only_one: bool) -> (step: WaitStep)
        ensures
            step == step_after(*item, only_one),
            *item is Some ==> exists|before: usize| #[trigger] self.took_one(before),
    {
        if item.is_some() {
            let before = self.count.fetch_sub(1, Ordering::Relaxed);
            assert(self.took_one(before));
        }
        Self::next_step(item, only_one)
    }
}

} // verus!
