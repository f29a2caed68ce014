//! The body: every five seconds sync decays, stress and heart rate follow it,
//! and integrity and energy pay for it.

use vstd::prelude::*;

use crate::entity::{lowered, raise, raised, Tasy, TasyView, STAT_MAX};
use crate::event::{kept, law_bus_keeps_the_first, Event};

verus! {

/// The stress that a sync rate causes: what is missing to full sync, and
/// strengthened by aggression.
pub open spec fn stress_from(sync_rate: u32, aggression: u8) -> u32 {
    let base = lowered(100, sync_rate);
    raised(base, (base * aggression / 200) as u32)
}

/// The heart rate for a stress level.
pub open spec fn heart_rate(stress: u32, sleeping: bool) -> u32 {
    if sleeping {
        40
    } else {
        (60 + stress * 60 / 100) as u32
    }
}

impl TasyView {
    /// Sync decays, unless the entity sleeps; stress and heart rate follow.
    pub open spec fn after_decay(self) -> TasyView {
        let sync_rate = if self.sleeping {
            self.sync_rate
        } else {
            lowered(self.sync_rate, 1)
        };
        let stress = stress_from(sync_rate, self.personality.aggression);
        TasyView { sync_rate, stress, bpm: heart_rate(stress, self.sleeping), ..self }
    }

    /// Without any sync the waking entity loses integrity, and tells of it.
    pub open spec fn after_damage(self) -> TasyView {
        if self.sync_rate == 0 && !self.sleeping && self.integrity > 0 {
            TasyView { integrity: lowered(self.integrity, 5), ..self }.signalling(
                Event::IntegrityLost,
            )
        } else {
            self
        }
    }

    /// Waking costs energy, more under stress; an optimist in good sync gets
    /// some back, also in sleep.
    pub open spec fn after_effort(self) -> TasyView {
        let drained = if self.sleeping {
            self.energy
        } else if self.stress > 50 {
            lowered(self.energy, 2)
        } else {
            lowered(self.energy, 1)
        };
        let energy = if self.personality.optimism > 50 && self.sync_rate > 60 {
            raised(drained, 1)
        } else {
            drained
        };
        TasyView { energy, ..self }
    }

    /// The entity after one turn of its metabolism.
    pub open spec fn after_metabolism(self) -> TasyView {
        self.after_decay().after_damage().after_effort()
    }
}

impl Tasy {
    /// One turn of the metabolism.
    pub fn metabolism_turn(&mut self)
        requires
            old(self).wf(),
        ensures
            final(self).wf(),
            final(self)@ == old(self)@.after_metabolism(),
    {
        let sleeping: bool = self.sleeping;
        if !sleeping {
            self.sync_rate = self.sync_rate.saturating_sub(1);
        }
        let sync: u32 = self.sync_rate;

        let base: u32 = 100u32.saturating_sub(sync);
        let aggression: u32 = self.personality.aggression as u32;
        assert(base * aggression <= 100 * 255) by (nonlinear_arith)
            requires
                base <= 100,
                aggression <= 255,
        ;
        let sum: u32 = base + base * aggression / 200;
        let stress: u32 = if sum > STAT_MAX { STAT_MAX } else { sum };
        self.stress = stress;

        self.bpm = if sleeping { 40 } else { 60 + stress * 60 / 100 };
        assert(self@ == old(self)@.after_decay());

        if sync == 0 && !sleeping {
            if self.integrity > 0 {
                self.integrity = self.integrity.saturating_sub(5);
                self.event_push(Event::IntegrityLost);
            }
        }
        assert(self@ == old(self)@.after_decay().after_damage());

        if !sleeping {
            let drain: u32 = if stress > 50 { 2 } else { 1 };
            self.energy = self.energy.saturating_sub(drain);
        }
        if self.personality.optimism > 50 && sync > 60 {
            self.energy = raise(self.energy, 1);
        }
    }
}

/// The stress that a body feels that lacks `missing` of full sync: each missing
/// point counts once, and once more for every 200 points of aggression. Only
/// whole points count, and 100 is the most there is.
pub open spec fn strained(stress: int, missing: int, aggression: int) -> bool {
    ||| 0 <= stress <= 100 && 200 * stress <= missing * (200 + aggression) < 200 * (stress + 1)
    ||| stress == 100 && missing * (200 + aggression) >= 200 * 100
}

proof fn lemma_strained(sync_rate: u32, aggression: u8)
    requires
        sync_rate <= 100,
    ensures
        strained(stress_from(sync_rate, aggression) as int, 100 - sync_rate, aggression as int),
        stress_from(sync_rate, aggression) <= 100,
{
    let missing = 100 - sync_rate;
    assert(0 <= missing * aggression <= 25500) by (nonlinear_arith)
        requires
            0 <= missing <= 100,
            0 <= aggression <= 255,
    ;
    assert(missing * (200 + aggression) == 200 * missing + missing * aggression)
        by (nonlinear_arith);
}

/// A turn of a waking body: sync falls by one; stress is what the missing sync
/// makes it; the heart beats 60 times and six tenths of the stress more; without
/// any sync integrity falls by five, if there is any left, and this is told of;
/// energy falls by one, or by two under a stress above 50, and one comes back to
/// an optimist whose sync is above 60. No level falls below zero, and nothing
/// else changes.
pub proof fn law_waking_body(s: TasyView)
    requires
        s.sound(),
        !s.sleeping,
    ensures
        ({
            let t = s.after_metabolism();
            let cost = if t.stress > 50 { 2int } else { 1int };
            let back = if s.personality.optimism > 50 && s.sync_rate > 61 { 1int } else { 0int };
            let torn = s.sync_rate <= 1 && s.integrity > 0;
            &&& s.sync_rate > 0 ==> t.sync_rate == s.sync_rate - 1
            &&& s.sync_rate == 0 ==> t.sync_rate == 0
            &&& strained(t.stress as int, 100 - t.sync_rate, s.personality.aggression as int)
            &&& 100 * (t.bpm - 60) <= 60 * t.stress < 100 * (t.bpm - 59)
            &&& torn && s.integrity >= 5 ==> t.integrity == s.integrity - 5
            &&& torn && s.integrity < 5 ==> t.integrity == 0
            &&& torn ==> t.events == kept(s.events.push(Event::IntegrityLost))
            &&& !torn ==> t.integrity == s.integrity && t.events == s.events
            &&& s.energy >= cost ==> t.energy == s.energy - cost + back
            &&& s.energy < cost ==> t.energy == back
            &&& t == (TasyView {
                sync_rate: t.sync_rate,
                stress: t.stress,
                bpm: t.bpm,
                integrity: t.integrity,
                energy: t.energy,
                events: t.events,
                ..s
            })
        }),
{
    lemma_strained(s.after_decay().sync_rate, s.personality.aggression);
    law_bus_keeps_the_first(s.events, Event::IntegrityLost);
}

/// A turn of a sleeping body: sync and integrity stay, nothing is told of, the
/// heart beats 40 times, stress is what the missing sync makes it, and one point
/// of energy comes back to an optimist whose sync is above 60.
pub proof fn law_sleeping_body(s: TasyView)
    requires
        s.sound(),
        s.sleeping,
    ensures
        ({
            let t = s.after_metabolism();
            let back = s.personality.optimism > 50 && s.sync_rate > 60 && s.energy < 100;
            &&& strained(t.stress as int, 100 - s.sync_rate, s.personality.aggression as int)
            &&& t.bpm == 40
            &&& t.energy == (if back { s.energy + 1 } else { s.energy as int })
            &&& t == (TasyView { stress: t.stress, bpm: t.bpm, energy: t.energy, ..s })
        }),
{
    lemma_strained(s.sync_rate, s.personality.aggression);
}

} // verus!
