//! Fixed-capacity event queue: pushing never allocates, and a full queue drops
//! the newest event.
use vstd::prelude::*;

use crate::fieldbus::BusEvent;

verus! {

/// The events that a queue holds at most.
pub const EVENT_CAPACITY: usize = 64;

/// A ring of pending bus events, oldest first.
pub struct EventRing {
    buf: [Option<BusEvent>; 64],
    head: usize,
    len: usize,
}

/// The pending events after one more happened.
pub open spec fn with_event(events: Seq<BusEvent>, ev: BusEvent) -> Seq<BusEvent> {
    if events.len() >= EVENT_CAPACITY {
        events
    } else {
        events.push(ev)
    }
}

impl View for EventRing {
    type V = Seq<BusEvent>;

    closed spec fn view(&self) -> Seq<BusEvent> {
        Seq::new(self.len as nat, |i: int| self.buf[(self.head + i) % 64]->0)
    }
}

impl EventRing {
    /// The pending events fill their slots.
    pub closed spec fn valid(self) -> bool {
        &&& self.head < 64
        &&& self.len <= 64
        &&& forall|i: int| 0 <= i < self.len ==> (#[trigger] self.buf[(self.head + i) % 64]) is Some
    }

    pub fn new() -> (r: EventRing)
        ensures
            r.valid(),
            r@ == Seq::<BusEvent>::empty(),
    {
        let r = EventRing { buf: [None; 64], head: 0, len: 0 };
        assert(r@ =~= Seq::<BusEvent>::empty());
        r
    }

    /// Add an event, unless the queue is full.
    pub fn push(&mut self, ev: BusEvent)
        requires
            old(self).valid(),
        ensures
            final(self).valid(),
            final(self)@ == with_event(old(self)@, ev),
            final(self)@.len() <= EVENT_CAPACITY,
    {
        if self.len == EVENT_CAPACITY {
            return;
        }
        let at: usize = (self.head + self.len) % EVENT_CAPACITY;
        self.buf[at] = Some(ev);
        self.len = self.len + 1;
        proof {
            let before = *old(self);
            assert forall|i: int| 0 <= i < before.len implies (#[trigger] self.buf[(self.head + i)
                % 64]) == before.buf[(before.head + i) % 64] by {
                assert((before.head + i) % 64 != (before.head + before.len) % 64);
            }
            assert(self@ =~= old(self)@.push(ev));
        }
    }

    /// Take the oldest event.
    pub fn pop(&mut self) -> (r: Option<BusEvent>)
        requires
            old(self).valid(),
        ensures
            final(self).valid(),
            if old(self)@.len() == 0 {
                r is None && final(self)@ == old(self)@
            } else {
                r == Some(old(self)@[0]) && final(self)@ == old(self)@.skip(1)
            },
    {
        if self.len == 0 {
            return None;
        }
        let ev: Option<BusEvent> = self.buf[self.head];
        assert(self.buf[(self.head + 0) % 64] is Some);
        self.buf[self.head] = None;
        self.head = (self.head + 1) % EVENT_CAPACITY;
        self.len = self.len - 1;
        proof {
            let before = *old(self);
            assert forall|i: int| 0 <= i < self.len implies (#[trigger] self.buf[(self.head + i)
                % 64]) == before.buf[(before.head + (i + 1)) % 64] by {
                assert((self.head + i) % 64 == (before.head + (i + 1)) % 64);
                assert((before.head + (i + 1)) % 64 != before.head);
            }
            assert(self@ =~= old(self)@.skip(1));
        }
        ev
    }
}

} // verus!
