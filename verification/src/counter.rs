//! Counting the live objects of a kind.

use std::sync::atomic::{AtomicU64, Ordering};
use std::sync::Arc;
use vstd::prelude::*;
use vstd::std_specs::convert::FromSpecImpl;

verus! {

/// Counted object
pub trait CountedObject {
    fn counter(&self) -> &Counter;
}

/// A shared object is counted by the handle of the object it points to.
impl<T: CountedObject> CountedObject for Arc<T> {
    fn counter(&self) -> (counter: &Counter)
        ensures
            call_ensures(T::counter, (&**self,), counter),
    {
        (**self).counter()
    }
}

/// A handle on a shared counter: the counter is one higher for as long as
/// the handle lives.
pub struct Counter(Arc<AtomicU64>);

impl Counter {
    /// The handle that counts in `counter`.
    pub closed spec fn attached(counter: Arc<AtomicU64>) -> Self {
        Counter(counter)
    }

    /// True when 1 was added to `counter`, which held `before` then.
    pub open spec fn counted(counter: AtomicU64, before: u64) -> bool {
        call_ensures(AtomicU64::fetch_add, (&counter, 1u64, Ordering::Relaxed), before)
    }
}

impl From<Arc<AtomicU64>> for Counter {
    /// A handle that counts in `counter`: 1 is added to the counter when
    /// the handle is made.
    fn from(counter: Arc<AtomicU64>) -> (handle: Self)
        ensures
            exists|before: u64| #[trigger] Counter::counted(*counter, before),
    {
        let before = counter.fetch_add(1, Ordering::Relaxed);
        assert(Counter::counted(*counter, before));
        Self(counter)
    }
}

impl FromSpecImpl<Arc<AtomicU64>> for Counter {
    open spec fn obeys_from_spec() -> bool {
        true
    }

    open spec fn from_spec(counter: Arc<AtomicU64>) -> Self {
        Counter::attached(counter)
    }
}

impl Drop for Counter {
    /// Calls `AtomicU64::fetch_sub` to take this handle out of the count.
    #[verifier::external_body]
    fn drop(&mut self)
        opens_invariants none
        no_unwind
    {
        self.0.fetch_sub(1, Ordering::Relaxed);
    }
}

} // verus!
