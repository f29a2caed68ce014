//! The event bus: a ring buffer of event codes, with no allocation.

use vstd::prelude::*;

verus! {

/// Number of slots in the ring; one of them always stays free.
pub const EVT_CAP: usize = 16;

/// What one part of the entity tells the others.
#[derive(Copy, Clone, PartialEq, Eq, Structural, Debug)]
pub enum Event {
    TickMinute,
    UserMessage,
    UserRename,
    IntegrityLost,
    SyncLost,
    MemoryCreated,
    SleepEntered,
    WakeUp,
}

impl Event {
    /// The number under which the event lies in the ring.
    pub open spec fn spec_code(self) -> u8 {
        match self {
            Event::TickMinute => 0,
            Event::UserMessage => 1,
            Event::UserRename => 2,
            Event::IntegrityLost => 3,
            Event::SyncLost => 4,
            Event::MemoryCreated => 5,
            Event::SleepEntered => 6,
            Event::WakeUp => 7,
        }
    }

    /// The event that has the code `v`, if there is one.
    pub open spec fn of_code(v: u8) -> Option<Event> {
        match v {
            0 => Some(Event::TickMinute),
            1 => Some(Event::UserMessage),
            2 => Some(Event::UserRename),
            3 => Some(Event::IntegrityLost),
            4 => Some(Event::SyncLost),
            5 => Some(Event::MemoryCreated),
            6 => Some(Event::SleepEntered),
            7 => Some(Event::WakeUp),
            _ => None,
        }
    }

    pub fn code(self) -> (v: u8)
        ensures
            v == self.spec_code(),
    {
        match self {
            Event::TickMinute => 0,
            Event::UserMessage => 1,
            Event::UserRename => 2,
            Event::IntegrityLost => 3,
            Event::SyncLost => 4,
            Event::MemoryCreated => 5,
            Event::SleepEntered => 6,
            Event::WakeUp => 7,
        }
    }

    pub fn from_u8(v: u8) -> (e: Option<Event>)
        ensures
            e == Event::of_code(v),
    {
        match v {
            0 => Some(Event::TickMinute),
            1 => Some(Event::UserMessage),
            2 => Some(Event::UserRename),
            3 => Some(Event::IntegrityLost),
            4 => Some(Event::SyncLost),
            5 => Some(Event::MemoryCreated),
            6 => Some(Event::SleepEntered),
            7 => Some(Event::WakeUp),
            _ => None,
        }
    }
}

/// A queue of events, first in, first out. Its view is the waiting events,
/// the oldest first.
pub struct EventBus {
    buf: [u8; EVT_CAP],
    head: u32,
    tail: u32,
}

/// A queue of waiting events after `e` was offered to it: a full queue drops
/// what it is offered.
pub open spec fn offered(queue: Seq<Event>, e: Event) -> Seq<Event> {
    if queue.len() + 1 >= EVT_CAP {
        queue
    } else {
        queue.push(e)
    }
}

impl View for EventBus {
    type V = Seq<Event>;

    closed spec fn view(&self) -> Seq<Event> {
        Seq::new(self.waiting(), |i: int| Event::of_code(self.buf@[self.slot(i)])->0)
    }
}

impl EventBus {
    spec fn waiting(&self) -> nat {
        if self.tail >= self.head {
            (self.tail - self.head) as nat
        } else {
            (self.tail + EVT_CAP - self.head) as nat
        }
    }

    spec fn slot(&self, i: int) -> int {
        if self.head + i < EVT_CAP {
            self.head + i
        } else {
            self.head + i - EVT_CAP
        }
    }

    /// Both ends lie in the ring, and every waiting slot holds the code of an
    /// event.
    pub closed spec fn wf(&self) -> bool {
        &&& self.head < EVT_CAP
        &&& self.tail < EVT_CAP
        &&& forall|i: int| 0 <= i < self.waiting() ==> (#[trigger] self.buf@[self.slot(i)]) <= 7
    }

    /// The slot that follows slot `i` round the ring.
    fn slot_after(i: u32) -> (next: u32)
        requires
            i < EVT_CAP,
        ensures
            next == if i + 1 == EVT_CAP { 0 } else { i + 1 },
    {
        if i as usize + 1 == EVT_CAP {
            0
        } else {
            i + 1
        }
    }

    pub fn new() -> (bus: EventBus)
        ensures
            bus.wf(),
            bus@ == Seq::<Event>::empty(),
    {
        EventBus { buf: [0u8; EVT_CAP], head: 0, tail: 0 }
    }

    /// Puts an event at the end of the queue; a full queue drops it.
    pub fn event_push(&mut self, e: Event)
        requires
            old(self).wf(),
        ensures
            final(self).wf(),
            final(self)@ == offered(old(self)@, e),
    {
        let tail: u32 = self.tail;
        let next: u32 = EventBus::slot_after(tail);
        if next == self.head {
            return ;
        }
        self.buf[tail as usize] = e.code();
        self.tail = next;
        proof {
            let before = old(self);
            assert(self.waiting() == before.waiting() + 1);
            assert forall|i: int| 0 <= i < before.waiting() implies self.slot(i) == before.slot(i)
                && self.buf@[#[trigger] self.slot(i)] == before.buf@[before.slot(i)] by {}
            assert(self.slot(before.waiting() as int) == tail);
            assert(self@ =~= before@.push(e));
        }
    }

    /// Takes the oldest event out of the queue.
    pub fn event_pop(&mut self) -> (e: Option<Event>)
        requires
            old(self).wf(),
        ensures
            final(self).wf(),
            old(self)@.len() == 0 ==> e is None && final(self)@ == old(self)@,
            old(self)@.len() > 0 ==> e == Some(old(self)@[0]) && final(self)@
                == old(self)@.drop_first(),
    {
        let head: u32 = self.head;
        let tail: u32 = self.tail;
        if head == tail {
            return None;
        }
        let raw: u8 = self.buf[head as usize];
        self.head = EventBus::slot_after(head);
        proof {
            let before = old(self);
            assert(before.slot(0) == head);
            assert(self.waiting() + 1 == before.waiting());
            assert forall|i: int| 0 <= i < self.waiting() implies #[trigger] self.slot(i)
                == before.slot(i + 1) by {}
            assert(self@ =~= before@.drop_first());
        }
        Event::from_u8(raw)
    }
}

/// Every event is found again by its code, and no other code gives an event.
pub proof fn law_event_codes(e: Event, v: u8)
    ensures
        Event::of_code(e.spec_code()) == Some(e),
        Event::of_code(v) is Some <==> v <= 7,
        Event::of_code(v) is Some ==> (Event::of_code(v)->0).spec_code() == v,
{
}

/// First in, first out: a queue that has room gives an event that it is offered
/// out last, after all that waited before it, and gives its oldest event out
/// whether or not another one came meanwhile.
pub proof fn law_bus_is_fifo(queue: Seq<Event>, e: Event)
    requires
        queue.len() + 1 < EVT_CAP,
    ensures
        offered(queue, e).last() == e,
        offered(queue, e).drop_last() == queue,
        queue.len() > 0 ==> offered(queue, e)[0] == queue[0],
        queue.len() > 0 ==> offered(queue, e).drop_first() == offered(queue.drop_first(), e),
{
    assert(offered(queue, e).drop_last() =~= queue);
    if queue.len() > 0 {
        assert(offered(queue, e).drop_first() =~= offered(queue.drop_first(), e));
    }
}

/// A queue never holds more than one event less than the ring has slots. A full
/// one drops what it is offered, and takes in events again once one was taken
/// out.
pub proof fn law_full_bus_drops(queue: Seq<Event>, e: Event)
    requires
        queue.len() < EVT_CAP,
    ensures
        offered(queue, e).len() < EVT_CAP,
        queue.len() + 1 == EVT_CAP ==> offered(queue, e) == queue,
        queue.len() > 0 ==> offered(queue.drop_first(), e) == queue.drop_first().push(e),
{
}

/// Of events that come to an empty bus one after the other, those that it
/// holds: the first fifteen.
pub open spec fn kept(all: Seq<Event>) -> Seq<Event> {
    if all.len() <= 15 {
        all
    } else {
        all.take(15)
    }
}

/// The bus holds the first fifteen of the events that came to it, in the order
/// in which they came, however many there were.
pub proof fn law_bus_keeps_the_first(all: Seq<Event>, e: Event)
    ensures
        offered(kept(all), e) == kept(all.push(e)),
        kept(Seq::<Event>::empty()) == Seq::<Event>::empty(),
{
    assert(offered(kept(all), e) =~= kept(all.push(e)));
}

} // verus!
