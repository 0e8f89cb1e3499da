//! The result stream: one bounded buffer that every address pipeline feeds
//! and a single consumer drains. Results leave in exactly the order they
//! arrived, backpressure is the only thing that ever delays a producer, and
//! the stream ends only when it is closed and drained.

use vstd::prelude::*;

verus! {

use crate::render::ScanResult;

/// The single channel between the concurrent producers and the one consumer.
pub struct Aggregator {
    queue: Vec<ScanResult>,
    capacity: usize,
    closed: bool,
}

impl Aggregator {
    /// The buffered results, oldest first.
    pub closed spec fn pending(&self) -> Seq<ScanResult> {
        self.queue@
    }

    /// How many results the buffer may hold at once.
    pub closed spec fn cap(&self) -> int {
        self.capacity as int
    }

    /// Whether the producers have all finished and the stream was closed.
    pub closed spec fn is_closed(&self) -> bool {
        self.closed
    }

    /// The buffer never holds more than its capacity.
    pub closed spec fn wf(&self) -> bool {
        self.queue@.len() <= self.capacity
    }

    /// An open, empty stream.
    pub fn new(capacity: usize) -> (a: Aggregator)
        ensures
            a.wf(),
            a.cap() == capacity,
            a.pending().len() == 0,
            !a.is_closed(),
    {
        Aggregator { queue: Vec::new(), capacity, closed: false }
    }

    /// A producer offers one result. It is taken when the stream is open
    /// and the buffer has room, and joins the end of the arrival order;
    /// otherwise it is handed back, and the producer tries again later —
    /// buffering is the only thing it ever waits for.
    pub fn try_send(&mut self, r: ScanResult) -> (refused: Option<ScanResult>)
        requires
            old(self).wf(),
        ensures
            final(self).wf(),
            final(self).cap() == old(self).cap(),
            final(self).is_closed() == old(self).is_closed(),
            refused is None == (!old(self).is_closed() && old(self).pending().len() < old(self).cap()),
            refused is None ==> final(self).pending() == old(self).pending().push(r),
            refused is Some ==> refused->0 == r && final(self).pending() == old(self).pending(),
    {
        if !self.closed && self.queue.len() < self.capacity {
            self.queue.push(r);
            None
        } else {
            Some(r)
        }
    }

    /// The consumer takes the oldest pending result, so results are emitted
    /// in exactly the order they arrived, whatever pipelines produced them.
    pub fn try_recv(&mut self) -> (r: Option<ScanResult>)
        requires
            old(self).wf(),
        ensures
            final(self).wf(),
            final(self).cap() == old(self).cap(),
            final(self).is_closed() == old(self).is_closed(),
            old(self).pending().len() == 0 ==> r is None && final(self).pending() == old(self).pending(),
            old(self).pending().len() > 0 ==> r == Some(old(self).pending()[0]) && final(self).pending() == old(self).pending().drop_first(),
    {
        if self.queue.len() > 0 {
            let x = self.queue.remove(0);
            proof {
                assert(self.queue@ =~= old(self).queue@.drop_first());
            }
            Some(x)
        } else {
            None
        }
    }

    /// Every producer has finished: nothing more will arrive, and what is
    /// still buffered stays to be drained.
    pub fn close(&mut self)
        requires
            old(self).wf(),
        ensures
            final(self).wf(),
            final(self).cap() == old(self).cap(),
            final(self).is_closed(),
            final(self).pending() == old(self).pending(),
    {
        self.closed = true;
    }

    /// The scan is complete only once the stream is closed and drained.
    pub fn finished(&self) -> (b: bool)
        ensures
            b == (self.is_closed() && self.pending().len() == 0),
    {
        self.closed && self.queue.len() == 0
    }
}

} // verus!
