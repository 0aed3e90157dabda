//! Bounded, ordered, flow-controlled conduits between stages.
//!
//! A channel holds at most `capacity` items, delivers them in submission
//! order, and carries a `closed` flag that once set is never cleared.
//! Stages are scheduled cooperatively, so the waiting operations of a
//! blocking queue become readiness conditions: a stage polls
//! [`Channel::vacant_for`] or [`Channel::available_for`] and proceeds only
//! when the condition holds.
//!
//! Two ghost logs record every item ever enqueued and every item ever
//! dequeued; the well-formedness invariant ties them to the live contents,
//! which is what makes the ordering law provable.

use vstd::prelude::*;
use vstd::seq_lib::*;

verus! {

/// What a send attempt came to: the item was enqueued, the channel was
/// full (the caller must wait for vacancy and hand the item back later),
/// or the channel was already closed (a logic error on the sender's side;
/// the item comes back so the caller can report it).
pub enum SendOutcome<T> {
    Success,
    Blocked(T),
    Closed(T),
}

/// A bounded single-producer/single-consumer conduit. The element at view
/// index 0 is the oldest enqueued item, the one `try_take` returns next.
pub struct Channel<T> {
    items: Vec<T>,
    capacity: usize,
    closed: bool,
    sent: Ghost<Seq<T>>,
    taken: Ghost<Seq<T>>,
}

impl<T> View for Channel<T> {
    type V = Seq<T>;

    /// The items currently enqueued, oldest first.
    closed spec fn view(&self) -> Seq<T> {
        self.items@
    }
}

impl<T> Channel<T> {
    /// The fixed capacity the channel was created with.
    pub closed spec fn capacity_spec(&self) -> int {
        self.capacity as int
    }

    /// Whether `mark_closed` has ever been called.
    pub closed spec fn is_closed_spec(&self) -> bool {
        self.closed
    }

    /// Every item ever enqueued, in submission order.
    pub closed spec fn sent_log(&self) -> Seq<T> {
        self.sent@
    }

    /// Every item ever dequeued, in the order the consumer observed them.
    pub closed spec fn taken_log(&self) -> Seq<T> {
        self.taken@
    }

    /// The fill level never exceeds the capacity, and what was ever sent
    /// is exactly what was taken followed by what is still enqueued.
    pub open spec fn wf(&self) -> bool {
        &&& self@.len() <= self.capacity_spec()
        &&& 1 <= self.capacity_spec()
        &&& self.sent_log() == self.taken_log() + self@
    }

    /// A send succeeds exactly when the channel is neither closed nor full.
    pub open spec fn can_send_spec(&self) -> bool {
        !self.is_closed_spec() && self@.len() < self.capacity_spec()
    }

    /// The terminal condition: closed, and every enqueued item drained.
    /// Once this holds, no operation changes the channel again.
    pub open spec fn closed_and_empty_spec(&self) -> bool {
        self.is_closed_spec() && self@.len() == 0
    }

    /// Create an open, empty channel of the given capacity.
    pub fn new(capacity: usize) -> (c: Channel<T>)
        requires
            1 <= capacity,
        ensures
            c.wf(),
            c@ == Seq::<T>::empty(),
            c.capacity_spec() == capacity,
            !c.is_closed_spec(),
            c.sent_log() == Seq::<T>::empty(),
            c.taken_log() == Seq::<T>::empty(),
    {
        let c = Channel {
            items: Vec::new(),
            capacity,
            closed: false,
            sent: Ghost(Seq::empty()),
            taken: Ghost(Seq::empty()),
        };
        proof {
            assert(c.sent_log() =~= c.taken_log() + c@);
        }
        c
    }

    /// Enqueue `item` if the channel is open and has room; never blocks.
    /// `Blocked` tells the producer to wait for vacancy; `Closed` reports
    /// the logic error of sending into a closed channel. In both failure
    /// cases the channel is left exactly as it was and the item is handed
    /// back.
    pub fn try_send(&mut self, item: T) -> (r: SendOutcome<T>)
        requires
            old(self).wf(),
        ensures
            final(self).wf(),
            final(self).capacity_spec() == old(self).capacity_spec(),
            final(self).is_closed_spec() == old(self).is_closed_spec(),
            old(self).can_send_spec() ==> {
                &&& r is Success
                &&& final(self)@ == old(self)@.push(item)
                &&& final(self).sent_log() == old(self).sent_log().push(item)
                &&& final(self).taken_log() == old(self).taken_log()
            },
            old(self).is_closed_spec() ==> r == SendOutcome::Closed(item) && *final(self) == *old(self),
            !old(self).is_closed_spec() && old(self)@.len() == old(self).capacity_spec() ==> r
                == SendOutcome::Blocked(item) && *final(self) == *old(self),
    {
        if self.closed {
            SendOutcome::Closed(item)
        } else if self.items.len() == self.capacity {
            SendOutcome::Blocked(item)
        } else {
            proof {
                assert(self.sent_log().push(item) =~= self.taken_log() + self@.push(item));
            }
            self.sent = Ghost(self.sent@.push(item));
            self.items.push(item);
            SendOutcome::Success
        }
    }

    /// Dequeue the oldest item, or `None` if the channel is empty.
    /// Reading from a closed-and-empty channel yields `None` and is not an
    /// error; it is the consumer's signal that no more items will come.
    pub fn try_take(&mut self) -> (r: Option<T>)
        requires
            old(self).wf(),
        ensures
            final(self).wf(),
            final(self).capacity_spec() == old(self).capacity_spec(),
            final(self).is_closed_spec() == old(self).is_closed_spec(),
            final(self).sent_log() == old(self).sent_log(),
            old(self)@.len() == 0 ==> r is None && *final(self) == *old(self),
            old(self)@.len() > 0 ==> {
                &&& r == Some(old(self)@[0])
                &&& final(self)@ == old(self)@.drop_first()
                &&& final(self).taken_log() == old(self).taken_log().push(old(self)@[0])
            },
    {
        if self.items.len() == 0 {
            None
        } else {
            let item = self.items.remove(0);
            self.taken = Ghost(self.taken@.push(item));
            proof {
                assert(old(self)@ =~= seq![old(self)@[0]] + self@);
                assert(self.sent_log() =~= self.taken_log() + self@);
            }
            Some(item)
        }
    }

    /// Close the channel. Idempotent; already-enqueued items stay and must
    /// still be drained by the consumer. Once set the flag is never
    /// cleared: no operation of this type resets it.
    pub fn mark_closed(&mut self)
        requires
            old(self).wf(),
        ensures
            final(self).wf(),
            final(self).is_closed_spec(),
            final(self)@ == old(self)@,
            final(self).capacity_spec() == old(self).capacity_spec(),
            final(self).sent_log() == old(self).sent_log(),
            final(self).taken_log() == old(self).taken_log(),
    {
        self.closed = true;
    }

    /// The only safe signal that no more items will ever arrive.
    pub fn is_closed_and_empty(&self) -> (r: bool)
        ensures
            r == self.closed_and_empty_spec(),
    {
        self.closed && self.items.len() == 0
    }

    /// Whether the channel has been closed.
    pub fn is_closed(&self) -> (r: bool)
        ensures
            r == self.is_closed_spec(),
    {
        self.closed
    }

    /// Current fill level.
    pub fn fill(&self) -> (r: usize)
        ensures
            r == self@.len(),
    {
        self.items.len()
    }

    /// The capacity the channel was created with.
    pub fn capacity(&self) -> (r: usize)
        ensures
            r == self.capacity_spec(),
    {
        self.capacity
    }

    /// Readiness condition for a producer that needs room for `n` items: open
    /// when the vacancy is there, or when the channel is closed (so the
    /// producer wakes up and observes the error instead of waiting
    /// forever).
    pub fn vacant_for(&self, n: usize) -> (r: bool)
        requires
            self.wf(),
        ensures
            r == (self.capacity_spec() - self@.len() >= n || self.is_closed_spec()),
    {
        self.capacity - self.items.len() >= n || self.closed
    }

    /// Readiness condition for a consumer that needs `n` items: open when they
    /// are there, or when the channel is closed-and-empty (so the consumer
    /// wakes up and terminates instead of waiting forever).
    pub fn available_for(&self, n: usize) -> (r: bool)
        ensures
            r == (self@.len() >= n || self.closed_and_empty_spec()),
    {
        self.items.len() >= n || (self.closed && self.items.len() == 0)
    }
}

/// Ordering law: on one channel the consumer observes items in submission
/// order. The taken log is always a prefix of the sent log, and a consumer
/// that has taken as many items as were ever sent has observed exactly the
/// sent sequence.
pub proof fn law_channel_ordering<T>(ch: Channel<T>)
    requires
        ch.wf(),
    ensures
        ch.taken_log().is_prefix_of(ch.sent_log()),
        ch.taken_log().len() == ch.sent_log().len() ==> ch.taken_log() == ch.sent_log(),
{
    assert(ch.taken_log() =~= ch.sent_log().subrange(0, ch.taken_log().len() as int));
    if ch.taken_log().len() == ch.sent_log().len() {
        assert(ch.taken_log() =~= ch.sent_log());
    }
}

/// Backpressure law: a channel already holding `capacity` items admits no
/// further send, and after one take (`after` relates to `before` as the
/// contract of `try_take` states) the next send is admitted again.
pub proof fn law_backpressure<T>(before: Channel<T>, after: Channel<T>)
    requires
        before.wf(),
        !before.is_closed_spec(),
        before@.len() == before.capacity_spec(),
        after@ == before@.drop_first(),
        after.is_closed_spec() == before.is_closed_spec(),
        after.capacity_spec() == before.capacity_spec(),
    ensures
        !before.can_send_spec(),
        after.can_send_spec(),
{
}

/// Terminal law: a closed-and-empty channel admits no send, and every
/// operation's contract leaves such a channel exactly as it was, so
/// `is_closed_and_empty` stays true forever after.
pub proof fn law_closed_and_empty_terminal<T>(ch: Channel<T>)
    requires
        ch.wf(),
        ch.closed_and_empty_spec(),
    ensures
        !ch.can_send_spec(),
        ch.is_closed_spec(),
{
}

} // verus!
