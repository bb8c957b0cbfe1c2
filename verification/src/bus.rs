//! Event bus: a bounded broadcast ring.  Producers append; each subscriber
//! reads at its own pace through a cursor.  A subscriber that falls behind
//! the ring is told how much it missed and continues from the oldest entry
//! still held; a closed bus ends every subscriber.

use vstd::prelude::*;

use crate::events::{clone_event, event_like, WsEvent};

verus! {

/// How many events the ring holds before the oldest is dropped.
pub const BUS_CAPACITY: usize = 256;

/// What one receive attempt yields.
#[derive(Debug)]
pub enum RecvOutcome {
    /// The next event, in bus-insertion order.
    Event(WsEvent),
    /// The subscriber lagged: this many events were dropped for it, and its
    /// cursor now rests on the oldest entry still held.
    Lagged(u64),
    /// Nothing new yet.
    Empty,
    /// The bus is closed and fully drained.
    Closed,
}

/// The bounded broadcast ring.
#[derive(Debug)]
pub struct EventBus {
    pub buf: Vec<WsEvent>,
    pub history_len: u64,
    pub closed: bool,
}

impl EventBus {
    /// The entries still held, oldest first.
    pub open spec fn buffered(&self) -> Seq<WsEvent> {
        self.buf@
    }

    /// How many events were ever sent.
    pub open spec fn history(&self) -> u64 {
        self.history_len
    }

    /// The bus no longer accepts events.
    pub open spec fn is_closed(&self) -> bool {
        self.closed
    }

    /// Position of the oldest entry still held.
    pub open spec fn oldest(&self) -> int {
        self.history_len - self.buf@.len()
    }

    /// The ring never exceeds its capacity nor its own history.
    pub open spec fn wf(&self) -> bool {
        self.buf@.len() <= BUS_CAPACITY && self.buf@.len() <= self.history_len
    }

    /// Where a receive at `cursor` leaves the cursor.
    pub open spec fn next_cursor(&self, cursor: u64) -> int {
        if cursor < self.oldest() {
            self.oldest()
        } else if cursor < self.history() {
            cursor + 1
        } else {
            cursor as int
        }
    }

    /// A fresh, open, empty bus.
    pub fn new() -> (r: EventBus)
        ensures
            r.wf(),
            r.buffered().len() == 0,
            r.history() == 0,
            !r.is_closed(),
    {
        EventBus { buf: Vec::new(), history_len: 0, closed: false }
    }

    /// A new subscriber starts at the next event to be sent.
    pub fn subscribe(&self) -> (c: u64)
        ensures
            c == self.history(),
    {
        self.history_len
    }

    /// Append an event.  Sends never block: when the ring is full the
    /// oldest entry is dropped.
    pub fn send(&mut self, e: WsEvent)
        requires
            old(self).wf(),
            old(self).history() < u64::MAX,
        ensures
            final(self).wf(),
            final(self).is_closed() == old(self).is_closed(),
            final(self).history() == old(self).history() + 1,
            final(self).buffered() == if old(self).buffered().len() < BUS_CAPACITY {
                old(self).buffered().push(e)
            } else {
                old(self).buffered().drop_first().push(e)
            },
    {
        if self.buf.len() == BUS_CAPACITY {
            let _ = self.buf.remove(0);
            proof {
                assert(self.buf@ =~= old(self).buf@.drop_first());
            }
        }
        self.buf.push(e);
        self.history_len = self.history_len + 1;
    }

    /// Close the bus: subscribers see end-of-stream once drained.
    pub fn close(&mut self)
        requires
            old(self).wf(),
        ensures
            final(self).wf(),
            final(self).is_closed(),
            final(self).buffered() == old(self).buffered(),
            final(self).history() == old(self).history(),
    {
        self.closed = true;
    }

    /// One receive attempt for the subscriber whose cursor is `cursor`:
    /// the next held event, a lag report, nothing yet, or end-of-stream.
    pub fn try_recv(&self, cursor: u64) -> (r: (RecvOutcome, u64))
        requires
            self.wf(),
            cursor <= self.history(),
        ensures
            r.1 == self.next_cursor(cursor),
            cursor < self.oldest() ==> (r.0 matches RecvOutcome::Lagged(n) && n == self.oldest()
                - cursor),
            self.oldest() <= cursor < self.history() ==> (r.0 matches RecvOutcome::Event(e)
                && event_like(e, self.buffered()[cursor - self.oldest()])),
            cursor == self.history() && self.is_closed() ==> r.0 is Closed,
            cursor == self.history() && !self.is_closed() ==> r.0 is Empty,
    {
        let oldest: u64 = self.history_len - self.buf.len() as u64;
        if cursor < oldest {
            (RecvOutcome::Lagged(oldest - cursor), oldest)
        } else if cursor < self.history_len {
            let idx: usize = (cursor - oldest) as usize;
            (RecvOutcome::Event(clone_event(&self.buf[idx])), cursor + 1)
        } else if self.closed {
            (RecvOutcome::Closed, cursor)
        } else {
            (RecvOutcome::Empty, cursor)
        }
    }
}

/// A send never reorders what a subscriber has yet to read: an entry still
/// held after the send sits at the same history position as before, so
/// every subscriber observes the send sequence in order.
pub proof fn lemma_send_preserves_positions(pre: EventBus, post: EventBus, e: WsEvent, p: int)
    requires
        pre.wf(),
        pre.history() < u64::MAX,
        post.history() == pre.history() + 1,
        post.buffered() == if pre.buffered().len() < BUS_CAPACITY {
            pre.buffered().push(e)
        } else {
            pre.buffered().drop_first().push(e)
        },
        pre.oldest() <= p < pre.history(),
        post.oldest() <= p,
    ensures
        post.buffered()[p - post.oldest()] == pre.buffered()[p - pre.oldest()],
{
    if pre.buffered().len() < BUS_CAPACITY {
        assert(post.oldest() == pre.oldest());
    } else {
        assert(post.oldest() == pre.oldest() + 1);
        assert(post.buffered()[p - post.oldest()] == pre.buffered().drop_first()[p - pre.oldest()
            - 1]);
        assert(pre.buffered().drop_first()[p - pre.oldest() - 1] == pre.buffered()[p
            - pre.oldest()]);
    }
}

/// A subscriber's cursor never moves backwards: events are observed in
/// bus-insertion order, with gaps only where a lag was reported.
pub proof fn lemma_recv_monotone(bus: EventBus, cursor: u64)
    requires
        bus.wf(),
        cursor <= bus.history(),
    ensures
        bus.next_cursor(cursor) >= cursor,
        bus.next_cursor(cursor) <= bus.history(),
{
}

} // verus!
