//! The clock: every second of the session is counted, every full minute is
//! told of, and after a long time alone the entity falls asleep.

use vstd::prelude::*;

use crate::entity::{Tasy, TasyView};
use crate::event::{kept, law_bus_keeps_the_first, Event};

verus! {

/// Seconds without an interaction after which the entity falls asleep.
pub const SLEEP_ONSET_SECS: u32 = 300;

impl TasyView {
    /// One more second, and maybe a full minute.
    pub open spec fn after_tick(self) -> TasyView {
        let later = TasyView { session_seconds: (self.session_seconds + 1) as u32, ..self };
        if self.minute_seconds + 1 >= 60 {
            TasyView { minute_seconds: 0, ..later }.signalling(Event::TickMinute)
        } else {
            TasyView { minute_seconds: (self.minute_seconds + 1) as u32, ..later }
        }
    }

    /// The waking entity falls asleep if it was left alone too long.
    pub open spec fn after_dozing(self) -> TasyView {
        if self.idle() >= SLEEP_ONSET_SECS && !self.sleeping {
            TasyView { sleeping: true, ..self }.signalling(Event::SleepEntered)
        } else {
            self
        }
    }

    /// The entity after one second of its session.
    pub open spec fn after_second(self) -> TasyView {
        self.after_tick().after_dozing()
    }
}

impl Tasy {
    /// One second of the session.
    pub fn session_second(&mut self)
        requires
            old(self).wf(),
            old(self)@.session_seconds < u32::MAX,
        ensures
            final(self).wf(),
            final(self)@ == old(self)@.after_second(),
    {
        let secs: u32 = self.session_seconds + 1;
        self.session_seconds = secs;
        self.minute_seconds = self.minute_seconds + 1;
        if self.minute_seconds >= 60 {
            self.minute_seconds = 0;
            self.event_push(Event::TickMinute);
        }
        assert(self@ == old(self)@.after_tick());
        if secs.saturating_sub(self.last_interaction) >= SLEEP_ONSET_SECS && !self.sleeping {
            self.sleeping = true;
            self.event_push(Event::SleepEntered);
        }
    }
}

/// A second makes the session one second longer. The sixtieth of a minute ends
/// the minute and tells of it. An entity that is awake and has been without an
/// interaction for 300 seconds falls asleep and tells of it. Nothing else
/// changes.
pub proof fn law_second_passes(s: TasyView)
    requires
        s.sound(),
        s.session_seconds < u32::MAX,
    ensures
        ({
            let t = s.after_second();
            let full = s.minute_seconds == 59;
            let dozes = !s.sleeping && s.session_seconds + 1 - s.last_interaction >= 300;
            &&& t.session_seconds == s.session_seconds + 1
            &&& t.minute_seconds == (if full { 0 } else { s.minute_seconds + 1 })
            &&& t.sleeping == (s.sleeping || dozes)
            &&& full && dozes ==> t.events == kept(
                s.events + seq![Event::TickMinute, Event::SleepEntered],
            )
            &&& full && !dozes ==> t.events == kept(s.events.push(Event::TickMinute))
            &&& !full && dozes ==> t.events == kept(s.events.push(Event::SleepEntered))
            &&& !full && !dozes ==> t.events == s.events
            &&& t == (TasyView {
                session_seconds: t.session_seconds,
                minute_seconds: t.minute_seconds,
                sleeping: t.sleeping,
                events: t.events,
                ..s
            })
        }),
{
    let ticked = s.events.push(Event::TickMinute);
    assert(s.events + seq![Event::TickMinute, Event::SleepEntered] =~= ticked.push(
        Event::SleepEntered,
    ));
    law_bus_keeps_the_first(s.events, Event::TickMinute);
    law_bus_keeps_the_first(s.events, Event::SleepEntered);
    law_bus_keeps_the_first(ticked, Event::SleepEntered);
}

} // verus!
