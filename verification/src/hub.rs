//! The broadcast hub: a bounded FIFO queue that decouples producers from the
//! fan-out loop. Producers append with `try_publish`; the consumption loop
//! removes messages one at a time with `dequeue`, in arrival order.
//!
//! The hub keeps two ghost histories: every message ever accepted
//! (`published`) and every message handed to the dispatchers (`delivered`).
//! Well-formedness ties them together: the published history is exactly the
//! delivered history followed by what still sits in the queue, so nothing is
//! ever dropped and delivery order is publish order.

use vstd::prelude::*;

verus! {

/// Error returned by a publish attempt once the hub is closed.
#[derive(Clone, Copy, PartialEq, Eq, Structural, Debug)]
pub struct ChannelClosed;

/// Outcome of a non-blocking publish attempt.
#[derive(Clone, Copy, PartialEq, Eq, Structural, Debug)]
pub enum PublishOutcome {
    /// The message was appended to the queue.
    Enqueued,
    /// The queue is at capacity; the caller must suspend and retry.
    /// The message was not enqueued and nothing was lost or reordered.
    MustWait,
}

/// The bounded broadcast queue.
pub struct Hub {
    queue: Vec<String>,
    cap: usize,
    closed: bool,
    published: Ghost<Seq<Seq<char>>>,
    delivered: Ghost<Seq<Seq<char>>>,
}

impl Hub {
    /// The messages currently waiting in the queue, oldest first.
    pub closed spec fn queue_view(&self) -> Seq<Seq<char>> {
        self.queue.deep_view()
    }

    /// Every message accepted by a successful publish, in arrival order.
    pub closed spec fn published(&self) -> Seq<Seq<char>> {
        self.published@
    }

    /// Every message handed out by `dequeue`, in the order handed out.
    pub closed spec fn delivered(&self) -> Seq<Seq<char>> {
        self.delivered@
    }

    pub closed spec fn capacity(&self) -> nat {
        self.cap as nat
    }

    pub closed spec fn is_closed(&self) -> bool {
        self.closed
    }

    /// Well-formedness: the queue respects its capacity, and the accepted
    /// history is exactly the delivered history followed by the queue.
    pub closed spec fn wf(&self) -> bool {
        &&& 1 <= self.cap
        &&& self.queue.len() <= self.cap
        &&& self.published() == self.delivered() + self.queue_view()
    }

    /// Creates an empty hub with the given queue capacity.
    pub fn new(cap: usize) -> (hub: Hub)
        requires
            1 <= cap,
        ensures
            hub.wf(),
            hub.capacity() == cap,
            hub.queue_view() == Seq::<Seq<char>>::empty(),
            hub.published() == Seq::<Seq<char>>::empty(),
            hub.delivered() == Seq::<Seq<char>>::empty(),
            !hub.is_closed(),
    {
        let hub = Hub {
            queue: Vec::new(),
            cap,
            closed: false,
            published: Ghost(Seq::empty()),
            delivered: Ghost(Seq::empty()),
        };
        proof {
            assert(hub.queue_view() =~= Seq::<Seq<char>>::empty());
            assert(hub.published() =~= hub.delivered() + hub.queue_view());
        }
        hub
    }

    /// One publish attempt. On a closed hub it fails; on a full queue it asks
    /// the caller to wait (the message is neither enqueued nor dropped);
    /// otherwise the message is appended behind everything published before
    /// it, so a single producer's messages keep their relative order.
    pub fn try_publish(&mut self, msg: String) -> (r: Result<PublishOutcome, ChannelClosed>)
        requires
            old(self).wf(),
        ensures
            final(self).wf(),
            final(self).capacity() == old(self).capacity(),
            final(self).is_closed() == old(self).is_closed(),
            final(self).delivered() == old(self).delivered(),
            match r {
                Ok(PublishOutcome::Enqueued) => {
                    &&& !old(self).is_closed()
                    &&& old(self).queue_view().len() < old(self).capacity()
                    &&& final(self).queue_view() == old(self).queue_view().push(msg@)
                    &&& final(self).published() == old(self).published().push(msg@)
                },
                Ok(PublishOutcome::MustWait) => {
                    &&& !old(self).is_closed()
                    &&& old(self).queue_view().len() == old(self).capacity()
                    &&& final(self).queue_view() == old(self).queue_view()
                    &&& final(self).published() == old(self).published()
                },
                Err(ChannelClosed) => {
                    &&& old(self).is_closed()
                    &&& final(self).queue_view() == old(self).queue_view()
                    &&& final(self).published() == old(self).published()
                },
            },
    {
        if self.closed {
            Err(ChannelClosed)
        } else if self.queue.len() < self.cap {
            let ghost prev = self.queue.deep_view();
            let ghost mv = msg@;
            self.queue.push(msg);
            self.published = Ghost(self.published@.push(mv));
            proof {
                assert(self.queue_view() =~= prev.push(mv));
                assert(self.published() =~= self.delivered() + self.queue_view());
            }
            Ok(PublishOutcome::Enqueued)
        } else {
            Ok(PublishOutcome::MustWait)
        }
    }

    /// Removes and returns the oldest queued message, recording it as
    /// delivered. Returns `None` on an empty queue and changes nothing.
    pub fn dequeue(&mut self) -> (r: Option<String>)
        requires
            old(self).wf(),
        ensures
            final(self).wf(),
            final(self).capacity() == old(self).capacity(),
            final(self).is_closed() == old(self).is_closed(),
            final(self).published() == old(self).published(),
            match r {
                Some(msg) => {
                    &&& old(self).queue_view().len() > 0
                    &&& msg@ == old(self).queue_view()[0]
                    &&& final(self).queue_view() == old(self).queue_view().drop_first()
                    &&& final(self).delivered() == old(self).delivered().push(msg@)
                },
                None => {
                    &&& old(self).queue_view().len() == 0
                    &&& final(self).queue_view() == old(self).queue_view()
                    &&& final(self).delivered() == old(self).delivered()
                },
            },
    {
        if self.queue.len() == 0 {
            None
        } else {
            let ghost prev = self.queue.deep_view();
            let msg = self.queue.remove(0);
            self.delivered = Ghost(self.delivered@.push(msg@));
            proof {
                assert(self.queue_view() =~= prev.drop_first());
                assert(self.published() =~= self.delivered() + self.queue_view());
            }
            Some(msg)
        }
    }

    /// Marks the hub closed: every later publish attempt fails.
    pub fn close(&mut self)
        requires
            old(self).wf(),
        ensures
            final(self).wf(),
            final(self).is_closed(),
            final(self).capacity() == old(self).capacity(),
            final(self).queue_view() == old(self).queue_view(),
            final(self).published() == old(self).published(),
            final(self).delivered() == old(self).delivered(),
    {
        self.closed = true;
    }

    /// Number of messages currently queued.
    pub fn len(&self) -> (n: usize)
        ensures
            n == self.queue_view().len(),
    {
        self.queue.len()
    }

    /// The configured capacity.
    pub fn cap(&self) -> (n: usize)
        ensures
            n == self.capacity(),
    {
        self.cap
    }

    /// Whether the hub has been closed.
    pub fn closed(&self) -> (b: bool)
        ensures
            b == self.is_closed(),
    {
        self.closed
    }
}

/// FIFO law: the delivered history is always a prefix of the published
/// history, so dispatchers observe messages in the order they were published.
pub proof fn lemma_hub_fifo(h: &Hub)
    requires
        h.wf(),
    ensures
        h.delivered() =~= h.published().subrange(0, h.delivered().len() as int),
{
    assert forall|i: int| 0 <= i < h.delivered().len() implies h.published()[i]
        == h.delivered()[i] by {
        assert(h.published()[i] == (h.delivered() + h.queue_view())[i]);
    }
}

/// No-silent-drop law: every message a successful publish accepted is either
/// already delivered or still waiting in the queue; the hub never discards
/// an accepted message.
pub proof fn lemma_no_silent_drop(h: &Hub, i: int)
    requires
        h.wf(),
        0 <= i < h.published().len(),
    ensures
        i < h.delivered().len() ==> h.published()[i] == h.delivered()[i],
        h.delivered().len() <= i ==> h.published()[i] == h.queue_view()[i - h.delivered().len()],
{
    assert(h.published()[i] == (h.delivered() + h.queue_view())[i]);
}

} // verus!
