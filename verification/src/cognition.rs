//! The cognitive cycle: every ten seconds the entity looks at itself, lets its
//! feelings drift, and deals with the events that wait on its bus.

use vstd::prelude::*;

use crate::entity::{lowered, raise, raised, Tasy, TasyView};
use crate::event::{kept, law_bus_keeps_the_first, Event};
use crate::memory::{
    gained, law_recording_adds_one_memory, remembered, MemoryKind, MemoryView,
};
use crate::mood::Mood;

verus! {

/// Seconds without an interaction after which loneliness starts to grow.
pub const LONELINESS_ONSET_SECS: u32 = 60;

/// How much loneliness one cycle adds, for an attachment.
pub open spec fn loneliness_gain(attachment: u8) -> u32 {
    if attachment < 50 {
        1
    } else {
        (attachment / 50) as u32
    }
}

/// `level` one step nearer to `base`, and not above `STAT_MAX`.
pub open spec fn drifted(level: u32, base: u32) -> u32 {
    if level > base {
        (level - 1) as u32
    } else if level < base {
        raised(level, 1)
    } else {
        level
    }
}

impl TasyView {
    /// Seconds since the last interaction.
    pub open spec fn idle(self) -> u32 {
        lowered(self.session_seconds, self.last_interaction)
    }

    /// Loneliness grows while nobody is there, and falls in company unless the
    /// entity sleeps. It is remembered when it comes to the half and to four
    /// fifths of its range.
    pub open spec fn after_loneliness(self) -> TasyView {
        if self.idle() > LONELINESS_ONSET_SECS {
            let lonelier = raised(self.loneliness, loneliness_gain(self.personality.attachment));
            let felt = TasyView { loneliness: lonelier, ..self };
            let deepened = if self.loneliness < 50 <= lonelier {
                felt.remembering("Isolation deepens"@, MemoryKind::InternalEvent, 65)
            } else {
                felt
            };
            if self.loneliness < 80 <= lonelier {
                deepened.remembering("Critical loneliness"@, MemoryKind::StressEvent, 85)
            } else {
                deepened
            }
        } else if !self.sleeping {
            TasyView { loneliness: lowered(self.loneliness, 2), ..self }
        } else {
            self
        }
    }

    /// Curiosity drifts to its base, unless the entity sleeps.
    pub open spec fn after_curiosity(self) -> TasyView {
        if self.sleeping {
            self
        } else {
            TasyView {
                curiosity: drifted(self.curiosity, self.personality.curiosity as u32),
                ..self
            }
        }
    }

    /// A low sync rate under high stress is remembered and told of.
    pub open spec fn after_sync_warning(self) -> TasyView {
        if self.sync_rate < 20 && self.stress > 70 {
            self.remembering("Sync critical"@, MemoryKind::StressEvent, 80).signalling(
                Event::SyncLost,
            )
        } else {
            self
        }
    }

    /// Stability is what the mean of stress and loneliness leaves.
    pub open spec fn after_stability(self) -> TasyView {
        TasyView {
            stability: lowered(100, ((self.stress + self.loneliness) / 2) as u32),
            ..self
        }
    }

    /// A change of mood is remembered and told of.
    pub open spec fn after_mood(self) -> TasyView {
        let mood = Mood::fitting(self.energy, self.stress, self.loneliness, self.curiosity);
        if mood == self.mood {
            self
        } else {
            TasyView { mood, ..self }.remembering(
                mood.name(),
                MemoryKind::StateTransition,
                55,
            ).signalling(Event::MemoryCreated)
        }
    }

    /// What one event does to the entity.
    pub open spec fn affected(self, e: Event) -> TasyView {
        match e {
            Event::IntegrityLost => if self.integrity < 30 {
                self.remembering("Integrity critical"@, MemoryKind::StressEvent, 90)
            } else {
                self
            },
            Event::SleepEntered => self.remembering(
                "Sleep entered"@,
                MemoryKind::StateTransition,
                50,
            ),
            Event::WakeUp => TasyView { loneliness: lowered(self.loneliness, 20), ..self },
            Event::SyncLost => self.remembering("Sync lost"@, MemoryKind::StressEvent, 75),
            Event::TickMinute => if self.stress < 40 && !self.sleeping {
                TasyView { curiosity: raised(self.curiosity, 2), ..self }
            } else {
                self
            },
            _ => self,
        }
    }

    /// The entity with its oldest event taken off the bus and dealt with.
    pub open spec fn after_event(self) -> TasyView {
        TasyView { events: self.events.drop_first(), ..self }.affected(self.events[0])
    }

    /// The entity once all its events are dealt with, the oldest first.
    pub open spec fn after_events(self) -> TasyView
        decreases self.events.len(),
    {
        if self.events.len() == 0 {
            self
        } else {
            self.after_event().after_events()
        }
    }

    /// The entity after one cognitive cycle.
    pub open spec fn after_cognition(self) -> TasyView {
        self.after_loneliness().after_curiosity().after_sync_warning().after_stability().after_mood().after_events()
    }
}

impl Tasy {
    fn feel_loneliness(&mut self)
        requires
            old(self).wf(),
        ensures
            final(self).wf(),
            final(self)@ == old(self)@.after_loneliness(),
    {
        let idle: u32 = self.session_seconds.saturating_sub(self.last_interaction);
        if idle > LONELINESS_ONSET_SECS {
            let attachment: u32 = self.personality.attachment as u32;
            let share: u32 = attachment / 50;
            let gain: u32 = if share > 1 { share } else { 1 };
            let old_level: u32 = self.loneliness;
            let new_level: u32 = raise(old_level, gain);
            self.loneliness = new_level;
            if old_level < 50 && new_level >= 50 {
                self.push_memory("Isolation deepens", MemoryKind::InternalEvent, 65);
            }
            if old_level < 80 && new_level >= 80 {
                self.push_memory("Critical loneliness", MemoryKind::StressEvent, 85);
            }
        } else if !self.sleeping {
            self.loneliness = self.loneliness.saturating_sub(2);
        }
    }

    fn drift_curiosity(&mut self)
        requires
            old(self).wf(),
        ensures
            final(self).wf(),
            final(self)@ == old(self)@.after_curiosity(),
    {
        if !self.sleeping {
            let base: u32 = self.personality.curiosity as u32;
            let level: u32 = self.curiosity;
            self.curiosity = if level > base {
                level - 1
            } else if level < base {
                raise(level, 1)
            } else {
                level
            };
        }
    }

    fn warn_of_sync(&mut self)
        requires
            old(self).wf(),
        ensures
            final(self).wf(),
            final(self)@ == old(self)@.after_sync_warning(),
    {
        if self.sync_rate < 20 && self.stress > 70 {
            self.push_memory("Sync critical", MemoryKind::StressEvent, 80);
            self.event_push(Event::SyncLost);
        }
    }

    fn weigh_stability(&mut self)
        requires
            old(self).wf(),
        ensures
            final(self).wf(),
            final(self)@ == old(self)@.after_stability(),
    {
        let combined: u32 = (self.stress + self.loneliness) / 2;
        self.stability = 100u32.saturating_sub(combined);
    }

    fn change_mood(&mut self)
        requires
            old(self).wf(),
        ensures
            final(self).wf(),
            final(self)@ == old(self)@.after_mood(),
    {
        let mood: Mood = self.compute_mood();
        if mood != self.mood {
            self.mood = mood;
            self.push_memory(mood.label(), MemoryKind::StateTransition, 55);
            self.event_push(Event::MemoryCreated);
        }
    }

    /// What one event does to the entity.
    fn react(&mut self, e: Event)
        requires
            old(self).wf(),
        ensures
            final(self).wf(),
            final(self)@ == old(self)@.affected(e),
    {
        match e {
            Event::IntegrityLost => {
                if self.integrity < 30 {
                    self.push_memory("Integrity critical", MemoryKind::StressEvent, 90);
                }
            },
            Event::SleepEntered => {
                self.push_memory("Sleep entered", MemoryKind::StateTransition, 50);
            },
            Event::WakeUp => {
                self.loneliness = self.loneliness.saturating_sub(20);
            },
            Event::SyncLost => {
                self.push_memory("Sync lost", MemoryKind::StressEvent, 75);
            },
            Event::TickMinute => {
                if self.stress < 40 && !self.sleeping {
                    self.curiosity = raise(self.curiosity, 2);
                }
            },
            _ => {},
        }
    }

    /// Deals with every event on the bus, the oldest first.
    pub fn consume_events(&mut self)
        requires
            old(self).wf(),
        ensures
            final(self).wf(),
            final(self)@ == old(self)@.after_events(),
            final(self)@.events.len() == 0,
    {
        loop
            invariant
                self.wf(),
                self@.after_events() == old(self)@.after_events(),
            ensures
                self@.events.len() == 0,
            decreases self@.events.len(),
        {
            let ghost before = self@;
            match self.events.event_pop() {
                Some(e) => {
                    self.react(e);
                    assert(self@ == before.after_event());
                },
                None => {
                    assert(self@ == before);
                    break;
                },
            }
        }
    }

    /// One cognitive cycle.
    pub fn cognition_cycle(&mut self)
        requires
            old(self).wf(),
        ensures
            final(self).wf(),
            final(self)@ == old(self)@.after_cognition(),
    {
        self.feel_loneliness();
        self.drift_curiosity();
        self.warn_of_sync();
        self.weigh_stability();
        self.change_mood();
        self.consume_events();
    }
}

/// Loneliness, after more than 60 seconds without an interaction: it grows by one
/// for every 50 points of attachment, at least by one, up to 100. It is
/// remembered when it comes to 50, and when it comes to 80. Nothing else changes.
pub proof fn law_loneliness_grows_alone(s: TasyView)
    requires
        s.sound(),
        s.session_seconds - s.last_interaction > 60,
    ensures
        ({
            let t = s.after_loneliness();
            let gain = if s.personality.attachment < 50 {
                1int
            } else {
                s.personality.attachment as int / 50
            };
            let (l0, l1) = (s.loneliness, t.loneliness);
            &&& l0 + gain <= 100 ==> l1 == l0 + gain
            &&& l0 + gain > 100 ==> l1 == 100
            &&& l0 < 50 && l1 >= 50 ==> gained(
                s.memories,
                t.memories,
                s.session_seconds,
                "Isolation deepens"@,
                MemoryKind::InternalEvent,
                65,
            )
            &&& l0 < 80 && l1 >= 80 ==> gained(
                s.memories,
                t.memories,
                s.session_seconds,
                "Critical loneliness"@,
                MemoryKind::StressEvent,
                85,
            )
            &&& !(l0 < 50 && l1 >= 50) && !(l0 < 80 && l1 >= 80) ==> t.memories == s.memories
            &&& t == (TasyView { loneliness: l1, memories: t.memories, ..s })
        }),
{
    let at = s.session_seconds;
    law_recording_adds_one_memory(
        s.memories,
        at,
        "Isolation deepens"@,
        MemoryKind::InternalEvent,
        65,
    );
    law_recording_adds_one_memory(
        s.memories,
        at,
        "Critical loneliness"@,
        MemoryKind::StressEvent,
        85,
    );
}

/// Loneliness, up to 60 seconds after an interaction: it falls by two while the
/// entity is awake, not below zero, and stays while it sleeps. Nothing else
/// changes.
pub proof fn law_loneliness_falls_in_company(s: TasyView)
    requires
        s.session_seconds - s.last_interaction <= 60,
    ensures
        ({
            let t = s.after_loneliness();
            &&& t == (TasyView { loneliness: t.loneliness, ..s })
            &&& s.sleeping || s.loneliness == 0 ==> t.loneliness == s.loneliness
            &&& !s.sleeping && s.loneliness >= 2 ==> t.loneliness == s.loneliness - 2
            &&& !s.sleeping && s.loneliness == 1 ==> t.loneliness == 0
        }),
{
}

/// Curiosity goes one step to the curiosity of the personality while the entity
/// is awake, never above 100, and stays while it sleeps. Nothing else changes.
pub proof fn law_curiosity_step(s: TasyView)
    requires
        s.sound(),
    ensures
        ({
            let t = s.after_curiosity();
            let base = s.personality.curiosity;
            &&& t == (TasyView { curiosity: t.curiosity, ..s })
            &&& s.sleeping ==> t.curiosity == s.curiosity
            &&& !s.sleeping && s.curiosity > base ==> t.curiosity == s.curiosity - 1
            &&& !s.sleeping && s.curiosity < base && s.curiosity < 100 ==> t.curiosity
                == s.curiosity + 1
            &&& s.curiosity == base || s.curiosity == 100 && base > 100 ==> t.curiosity
                == s.curiosity
        }),
{
}

/// A sync rate below 20 under a stress above 70 is remembered and told of, and
/// nothing else is. Nothing else changes.
pub proof fn law_sync_warning(s: TasyView)
    requires
        s.sound(),
    ensures
        ({
            let t = s.after_sync_warning();
            let lost = s.sync_rate < 20 && s.stress > 70;
            &&& !lost ==> t == s
            &&& lost ==> t.events == kept(s.events.push(Event::SyncLost))
            &&& lost ==> gained(
                s.memories,
                t.memories,
                s.session_seconds,
                "Sync critical"@,
                MemoryKind::StressEvent,
                80,
            )
            &&& t == (TasyView { memories: t.memories, events: t.events, ..s })
        }),
{
    law_recording_adds_one_memory(
        s.memories,
        s.session_seconds,
        "Sync critical"@,
        MemoryKind::StressEvent,
        80,
    );
    law_bus_keeps_the_first(s.events, Event::SyncLost);
}

/// A change of mood is remembered under the name of the new mood and told of;
/// where the mood stays, nothing happens.
pub proof fn law_change_of_mood(s: TasyView)
    requires
        s.sound(),
    ensures
        ({
            let t = s.after_mood();
            &&& t.mood == Mood::fitting(s.energy, s.stress, s.loneliness, s.curiosity)
            &&& t.mood == s.mood ==> t == s
            &&& t.mood != s.mood ==> t.events == kept(s.events.push(Event::MemoryCreated))
            &&& t.mood != s.mood ==> gained(
                s.memories,
                t.memories,
                s.session_seconds,
                t.mood.name(),
                MemoryKind::StateTransition,
                55,
            )
            &&& t == (TasyView { mood: t.mood, memories: t.memories, events: t.events, ..s })
        }),
{
    let mood = Mood::fitting(s.energy, s.stress, s.loneliness, s.curiosity);
    law_recording_adds_one_memory(
        s.memories,
        s.session_seconds,
        mood.name(),
        MemoryKind::StateTransition,
        55,
    );
    law_bus_keeps_the_first(s.events, Event::MemoryCreated);
}

/// Stress and loneliness weigh on stability alike: half of their sum is taken
/// from 100, so that two points more of either cost one point of stability, and
/// the worst of both leaves none.
pub proof fn law_both_burdens_weigh(s: TasyView, t: TasyView)
    requires
        s.sound(),
        t.sound(),
        t.stress + t.loneliness == s.stress + s.loneliness + 2,
    ensures
        t.after_stability().stability == s.after_stability().stability - 1,
        s.stress == 0 && s.loneliness == 0 ==> s.after_stability().stability == 100,
        t.stress == 100 && t.loneliness == 100 ==> t.after_stability().stability == 0,
        s.after_stability() == (TasyView { stability: s.after_stability().stability, ..s }),
{
}

/// Something to be remembered.
pub struct Note {
    pub text: Seq<char>,
    pub kind: MemoryKind,
    pub importance: u8,
}

/// The log once all of `notes`, made at one time, have come to it.
pub open spec fn noted(log: Seq<MemoryView>, at: u32, notes: Seq<Note>) -> Seq<MemoryView>
    decreases notes.len(),
{
    if notes.len() == 0 {
        log
    } else {
        let n = notes.last();
        remembered(
            noted(log, at, notes.drop_last()),
            MemoryView::recorded(at, n.text, n.kind, n.importance),
        )
    }
}

proof fn lemma_noted_together(log: Seq<MemoryView>, at: u32, first: Seq<Note>, then: Seq<Note>)
    ensures
        noted(log, at, first + then) == noted(noted(log, at, first), at, then),
    decreases then.len(),
{
    if then.len() == 0 {
        assert(first + then =~= first);
    } else {
        assert((first + then).drop_last() =~= first + then.drop_last());
        lemma_noted_together(log, at, first, then.drop_last());
    }
}

proof fn lemma_one_note(log: Seq<MemoryView>, at: u32, n: Note)
    ensures
        noted(log, at, seq![n]) == remembered(
            log,
            MemoryView::recorded(at, n.text, n.kind, n.importance),
        ),
        noted(log, at, Seq::empty()) == log,
{
    assert(seq![n].drop_last() =~= Seq::<Note>::empty());
    assert(noted(log, at, seq![n].drop_last()) == log);
}

/// How often `e` waits in a queue.
pub open spec fn times(queue: Seq<Event>, e: Event) -> nat
    decreases queue.len(),
{
    if queue.len() == 0 {
        0
    } else {
        times(queue.drop_first(), e) + (if queue[0] == e { 1nat } else { 0nat })
    }
}

/// What is remembered of the events of a queue, in their order: every sleep,
/// every loss of sync, and losses of integrity once it is below 30.
pub open spec fn event_notes(queue: Seq<Event>, integrity: u32) -> Seq<Note>
    decreases queue.len(),
{
    if queue.len() == 0 {
        Seq::empty()
    } else {
        (if queue[0] == Event::SleepEntered {
            seq![Note { text: "Sleep entered"@, kind: MemoryKind::StateTransition, importance: 50 }]
        } else if queue[0] == Event::SyncLost {
            seq![Note { text: "Sync lost"@, kind: MemoryKind::StressEvent, importance: 75 }]
        } else if queue[0] == Event::IntegrityLost && integrity < 30 {
            seq![Note { text: "Integrity critical"@, kind: MemoryKind::StressEvent, importance: 90 }]
        } else {
            Seq::empty()
        }) + event_notes(queue.drop_first(), integrity)
    }
}

/// What all waiting events do together: each awakening takes 20 from loneliness,
/// down to zero; each minute adds two to the curiosity of an entity that is awake
/// with a stress below 40, up to 100; and what is to be remembered is. The bus is
/// empty then, and nothing else changes.
pub proof fn law_events_take_effect(s: TasyView)
    requires
        s.curiosity <= 100,
    ensures
        ({
            let t = s.after_events();
            let eased = 20 * times(s.events, Event::WakeUp);
            let roused = if s.stress < 40 && !s.sleeping {
                2 * times(s.events, Event::TickMinute)
            } else {
                0
            };
            &&& t.loneliness == (if s.loneliness >= eased { s.loneliness - eased } else { 0 })
            &&& t.curiosity == (if s.curiosity + roused <= 100 {
                s.curiosity + roused
            } else {
                100
            })
            &&& t.memories == noted(
                s.memories,
                s.session_seconds,
                event_notes(s.events, s.integrity),
            )
            &&& t.events.len() == 0
            &&& t == (TasyView {
                loneliness: t.loneliness,
                curiosity: t.curiosity,
                memories: t.memories,
                events: t.events,
                ..s
            })
        }),
    decreases s.events.len(),
{
    if s.events.len() > 0 {
        let u = s.after_event();
        let rest = event_notes(s.events.drop_first(), s.integrity);
        law_events_take_effect(u);
        let first = event_notes(s.events, s.integrity).take(
            event_notes(s.events, s.integrity).len() - rest.len(),
        );
        assert(event_notes(s.events, s.integrity) =~= first + rest);
        lemma_noted_together(s.memories, s.session_seconds, first, rest);
        if first.len() == 1 {
            assert(first =~= seq![first[0]]);
            lemma_one_note(s.memories, s.session_seconds, first[0]);
        } else {
            assert(first =~= Seq::<Note>::empty());
        }
        assert(u.memories == noted(s.memories, s.session_seconds, first));
    }
}

/// What a cycle remembers, in its order: loneliness that came to 50 or to 80, a
/// critical sync, a new mood, and then what the events bring.
pub open spec fn cycle_notes(s: TasyView, lonelier: u32, mood: Mood) -> Seq<Note> {
    let nothing = Seq::<Note>::empty();
    let lost = s.sync_rate < 20 && s.stress > 70;
    let told = s.events + (if lost {
        seq![Event::SyncLost]
    } else {
        Seq::empty()
    }) + (if mood != s.mood {
        seq![Event::MemoryCreated]
    } else {
        Seq::empty()
    });
    (if s.loneliness < 50 <= lonelier {
        seq![Note { text: "Isolation deepens"@, kind: MemoryKind::InternalEvent, importance: 65 }]
    } else {
        nothing
    }) + (if s.loneliness < 80 <= lonelier {
        seq![Note { text: "Critical loneliness"@, kind: MemoryKind::StressEvent, importance: 85 }]
    } else {
        nothing
    }) + (if lost {
        seq![Note { text: "Sync critical"@, kind: MemoryKind::StressEvent, importance: 80 }]
    } else {
        nothing
    }) + (if mood != s.mood {
        seq![Note { text: mood.name(), kind: MemoryKind::StateTransition, importance: 55 }]
    } else {
        nothing
    }) + event_notes(kept(told), s.integrity)
}

proof fn lemma_only_new_events(queue: Seq<Event>, e: Event, other: Event)
    requires
        e != other,
    ensures
        times(queue.push(e), other) == times(queue, other),
    decreases queue.len(),
{
    if queue.len() > 0 {
        assert(queue.push(e).drop_first() =~= queue.drop_first().push(e));
        lemma_only_new_events(queue.drop_first(), e, other);
    } else {
        assert(queue.push(e).drop_first() =~= Seq::<Event>::empty());
        assert(times(queue.push(e).drop_first(), other) == 0);
    }
}

proof fn lemma_cycle_memories(s: TasyView)
    requires
        s.sound(),
    ensures
        ({
            let u = s.after_loneliness().after_curiosity().after_sync_warning().after_stability().after_mood();
            noted(u.memories, s.session_seconds, event_notes(u.events, s.integrity)) == noted(
                s.memories,
                s.session_seconds,
                cycle_notes(s, s.after_loneliness().loneliness, u.mood),
            )
        }),
{
    let at = s.session_seconds;
    let nothing = Seq::<Note>::empty();
    let a = s.after_loneliness();
    let c = a.after_curiosity();
    let w = c.after_sync_warning();
    let u = w.after_stability().after_mood();
    let lost = s.sync_rate < 20 && s.stress > 70;
    let isolation = Note {
        text: "Isolation deepens"@,
        kind: MemoryKind::InternalEvent,
        importance: 65,
    };
    let critical = Note {
        text: "Critical loneliness"@,
        kind: MemoryKind::StressEvent,
        importance: 85,
    };
    let sync = Note { text: "Sync critical"@, kind: MemoryKind::StressEvent, importance: 80 };
    let mood = Note { text: u.mood.name(), kind: MemoryKind::StateTransition, importance: 55 };
    let n1 = if s.loneliness < 50 <= a.loneliness {
        seq![isolation]
    } else {
        nothing
    };
    let n2 = if s.loneliness < 80 <= a.loneliness {
        seq![critical]
    } else {
        nothing
    };
    let n3 = if lost {
        seq![sync]
    } else {
        nothing
    };
    let n4 = if u.mood != s.mood {
        seq![mood]
    } else {
        nothing
    };
    let told = s.events + (if lost {
        seq![Event::SyncLost]
    } else {
        Seq::empty()
    }) + (if u.mood != s.mood {
        seq![Event::MemoryCreated]
    } else {
        Seq::empty()
    });
    lemma_one_note(s.memories, at, isolation);
    lemma_one_note(noted(s.memories, at, n1), at, critical);
    let m2 = noted(noted(s.memories, at, n1), at, n2);
    assert(a.memories == m2);
    lemma_one_note(m2, at, sync);
    let m3 = noted(m2, at, n3);
    assert(w.memories == m3);
    lemma_one_note(m3, at, mood);
    let m4 = noted(m3, at, n4);
    assert(u.memories == m4);
    lemma_noted_together(s.memories, at, n1, n2);
    lemma_noted_together(s.memories, at, n1 + n2, n3);
    lemma_noted_together(s.memories, at, n1 + n2 + n3, n4);
    assert(kept(s.events) == s.events);
    law_bus_keeps_the_first(s.events, Event::SyncLost);
    let warned = if lost {
        s.events.push(Event::SyncLost)
    } else {
        s.events
    };
    assert(w.events == kept(warned));
    law_bus_keeps_the_first(warned, Event::MemoryCreated);
    let all = if u.mood != s.mood {
        warned.push(Event::MemoryCreated)
    } else {
        warned
    };
    assert(told =~= all);
    assert(u.events == kept(told));
    lemma_noted_together(s.memories, at, n1 + n2 + n3 + n4, event_notes(u.events, s.integrity));
    assert(cycle_notes(s, a.loneliness, u.mood) == n1 + n2 + n3 + n4 + event_notes(
        u.events,
        s.integrity,
    ));
}

/// A cognitive cycle as a whole. Loneliness and curiosity drift first; stability
/// and mood are taken from where they came to; then each awakening that waited
/// takes 20 from loneliness and each minute that waited adds two to the curiosity
/// of an entity that is awake with a stress below 40. The memories of the cycle
/// come in their order, the bus is empty, and nothing else changes.
pub proof fn law_cognitive_cycle(s: TasyView)
    requires
        s.sound(),
    ensures
        ({
            let t = s.after_cognition();
            let lonelier = s.after_loneliness().loneliness;
            let keener = s.after_curiosity().curiosity;
            let eased = 20 * times(s.events, Event::WakeUp);
            let roused = if s.stress < 40 && !s.sleeping {
                2 * times(s.events, Event::TickMinute)
            } else {
                0
            };
            &&& t.stability == 100 - (s.stress + lonelier) / 2
            &&& t.mood == Mood::fitting(s.energy, s.stress, lonelier, keener)
            &&& t.loneliness == (if lonelier >= eased { lonelier - eased } else { 0 })
            &&& t.curiosity == (if keener + roused <= 100 { keener + roused } else { 100 })
            &&& t.memories == noted(
                s.memories,
                s.session_seconds,
                cycle_notes(s, lonelier, t.mood),
            )
            &&& t.events.len() == 0
            &&& t == (TasyView {
                stability: t.stability,
                mood: t.mood,
                loneliness: t.loneliness,
                curiosity: t.curiosity,
                memories: t.memories,
                events: t.events,
                ..s
            })
        }),
{
    let c = s.after_loneliness().after_curiosity();
    let w = c.after_sync_warning();
    let u = w.after_stability().after_mood();
    assert(c.curiosity == s.after_curiosity().curiosity);
    assert(c.loneliness == s.after_loneliness().loneliness);
    law_events_take_effect(u);
    lemma_only_new_events(s.events, Event::SyncLost, Event::WakeUp);
    lemma_only_new_events(s.events, Event::SyncLost, Event::TickMinute);
    lemma_only_new_events(w.events, Event::MemoryCreated, Event::WakeUp);
    lemma_only_new_events(w.events, Event::MemoryCreated, Event::TickMinute);
    assert(times(u.events, Event::WakeUp) == times(s.events, Event::WakeUp));
    assert(times(u.events, Event::TickMinute) == times(s.events, Event::TickMinute));
    lemma_cycle_memories(s);
}

/// What stress does to a whole cycle: two points more cost one point of
/// stability, whatever else the entity is like.
pub proof fn law_stress_costs_stability(s: TasyView, t: TasyView)
    requires
        s.sound(),
        s.stress + 2 <= 100,
        t == (TasyView { stress: (s.stress + 2) as u32, ..s }),
    ensures
        t.after_cognition().stability == s.after_cognition().stability - 1,
{
    law_cognitive_cycle(s);
    law_cognitive_cycle(t);
}

/// One event after the other: an awakening takes 20 from loneliness, a minute
/// adds two to the curiosity of an entity at ease, a sleep, a loss of sync and a
/// loss of integrity below 30 are remembered, and the others do nothing.
pub proof fn law_event_takes_effect(s: TasyView, e: Event)
    requires
        s.sound(),
    ensures
        ({
            let t = s.affected(e);
            let rouses = e == Event::TickMinute && s.stress < 40 && !s.sleeping;
            let noticed = e == Event::IntegrityLost && s.integrity < 30;
            let at = s.session_seconds;
            &&& t == (TasyView {
                loneliness: t.loneliness,
                curiosity: t.curiosity,
                memories: t.memories,
                ..s
            })
            &&& e == Event::WakeUp && s.loneliness >= 20 ==> t.loneliness == s.loneliness - 20
            &&& e == Event::WakeUp && s.loneliness < 20 ==> t.loneliness == 0
            &&& e != Event::WakeUp ==> t.loneliness == s.loneliness
            &&& rouses && s.curiosity <= 98 ==> t.curiosity == s.curiosity + 2
            &&& rouses && s.curiosity > 98 ==> t.curiosity == 100
            &&& !rouses ==> t.curiosity == s.curiosity
            &&& e == Event::SleepEntered ==> gained(
                s.memories,
                t.memories,
                at,
                "Sleep entered"@,
                MemoryKind::StateTransition,
                50,
            )
            &&& e == Event::SyncLost ==> gained(
                s.memories,
                t.memories,
                at,
                "Sync lost"@,
                MemoryKind::StressEvent,
                75,
            )
            &&& noticed ==> gained(
                s.memories,
                t.memories,
                at,
                "Integrity critical"@,
                MemoryKind::StressEvent,
                90,
            )
            &&& e != Event::SleepEntered && e != Event::SyncLost && !noticed ==> t.memories
                == s.memories
        }),
{
    let at = s.session_seconds;
    law_recording_adds_one_memory(
        s.memories,
        at,
        "Sleep entered"@,
        MemoryKind::StateTransition,
        50,
    );
    law_recording_adds_one_memory(s.memories, at, "Sync lost"@, MemoryKind::StressEvent, 75);
    law_recording_adds_one_memory(
        s.memories,
        at,
        "Integrity critical"@,
        MemoryKind::StressEvent,
        90,
    );
}

} // verus!
