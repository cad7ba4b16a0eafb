//! The fan-in bus: the single ordered queue that every connection's
//! decoded updates are delivered into and the sole point consumers read
//! from.  The queue is unbounded, so accepting an update never fails
//! while the bus is open; once accepted, an update is only removed by a
//! consumer popping it.  Pops return updates in acceptance order, so the
//! read order of each individual connection is preserved end to end.

use vstd::prelude::*;
use crate::models::PriceUpdate;

verus! {

/// Error returned when an update is offered to a bus that has been
/// closed by shutdown.  Fatal for the producer; expected only during or
/// after shutdown.
#[derive(Clone, Copy, Debug, PartialEq, Eq, Structural)]
pub enum BusError {
    ChannelClosed,
}

/// An unbounded FIFO queue of price updates with a close flag.
#[derive(Debug)]
pub struct FanInBus {
    pub items: Vec<PriceUpdate>,
    pub closed: bool,
}

impl FanInBus {
    /// An open, empty bus.
    pub fn new() -> (b: FanInBus)
        ensures
            b.items@.len() == 0,
            !b.closed,
    {
        FanInBus { items: Vec::new(), closed: false }
    }

    /// Accepts `update` at the back of the queue.  Never fails while the
    /// bus is open; after `close` the update is refused and the queue is
    /// left unchanged, so a closed bus never grows.
    pub fn push(&mut self, update: PriceUpdate) -> (r: Result<(), BusError>)
        ensures
            old(self).closed ==> r == Err::<(), BusError>(BusError::ChannelClosed)
                && *final(self) == *old(self),
            !old(self).closed ==> r == Ok::<(), BusError>(())
                && final(self).items@ == old(self).items@.push(update)
                && !final(self).closed,
    {
        if self.closed {
            Err(BusError::ChannelClosed)
        } else {
            self.items.push(update);
            Ok(())
        }
    }

    /// Removes and returns the oldest queued update, if any.  Draining
    /// is allowed after close: updates accepted before shutdown are
    /// never lost.
    pub fn pop(&mut self) -> (r: Option<PriceUpdate>)
        ensures
            old(self).items@.len() == 0 ==> r is None && *final(self) == *old(self),
            old(self).items@.len() > 0 ==> r == Some(old(self).items@[0])
                && final(self).items@ == old(self).items@.drop_first()
                && final(self).closed == old(self).closed,
    {
        if self.items.len() == 0 {
            None
        } else {
            let first = self.items.remove(0);
            proof {
                assert(self.items@ =~= old(self).items@.drop_first());
            }
            Some(first)
        }
    }

    /// How many updates are queued.
    pub fn len(&self) -> (n: usize)
        ensures
            n == self.items@.len(),
    {
        self.items.len()
    }

    /// Whether the bus has been closed by shutdown.
    pub fn is_closed(&self) -> (c: bool)
        ensures
            c == self.closed,
    {
        self.closed
    }

    /// Closes the bus: later pushes are refused, queued updates remain
    /// available to `pop`.  Idempotent.
    pub fn close(&mut self)
        ensures
            final(self).closed,
            final(self).items@ == old(self).items@,
    {
        self.closed = true;
    }
}

} // verus!
