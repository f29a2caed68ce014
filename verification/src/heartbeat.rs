//! The heartbeat: what the light does during one beat.

use vstd::prelude::*;

use crate::entity::Tasy;
use crate::mood::Mood;

verus! {

/// One step of a beat: set the light, or wait some milliseconds.
#[derive(Copy, Clone, PartialEq, Eq, Structural, Debug)]
pub enum LedStep {
    Duty(u8),
    Wait(u64),
}

/// How far level `k` of a wave with `n` levels lies from its start or its end,
/// whichever is nearer: the wave goes down and comes up again.
pub open spec fn depth(k: int, n: int) -> int {
    if k < n {
        k
    } else {
        2 * n - 1 - k
    }
}

/// The light goes down from full in `n` levels, each `drop` darker than the one
/// before, and up again, and stays `wait` milliseconds on each level.
pub open spec fn wave(n: nat, drop: nat, wait: u64) -> Seq<LedStep> {
    Seq::new(
        4 * n,
        |i: int|
            if i % 2 == 0 {
                LedStep::Duty((255 - depth(i / 2, n as int) * drop) as u8)
            } else {
                LedStep::Wait(wait)
            },
    )
}

pub open spec fn at_least_one(v: u64) -> u64 {
    if v < 1 {
        1
    } else {
        v
    }
}

/// One pulse: down and up in 14 levels each.
pub open spec fn pulse(step_ms: u64) -> Seq<LedStep> {
    wave(14, 16, at_least_one(step_ms))
}

/// Milliseconds from one heartbeat to the next.
pub open spec fn cycle(bpm: u32) -> u64 {
    if bpm == 0 {
        60000
    } else {
        60000u64 / bpm as u64
    }
}

/// One beat. A sleeping entity glimmers, whatever its mood; an exhausted one
/// flickers; a lonely one pulses and pauses; a distressed one pulses twice;
/// otherwise the light fades out and in.
pub open spec fn beat(bpm: u32, mood: Mood, sleeping: bool) -> Seq<LedStep> {
    let ms = cycle(bpm);
    if sleeping {
        seq![
            LedStep::Duty(20),
            LedStep::Wait(200),
            LedStep::Duty(0),
            LedStep::Wait((ms * 3) as u64),
        ]
    } else {
        match mood {
            Mood::Exhausted => seq![
                LedStep::Duty(40),
                LedStep::Wait(150),
                LedStep::Duty(0),
                LedStep::Wait((ms * 2) as u64),
            ],
            Mood::Lonely => pulse(ms / 3).push(LedStep::Wait((ms + 600) as u64)),
            Mood::Distressed => pulse(ms / 6).push(LedStep::Wait(100)) + pulse(ms / 6).push(
                LedStep::Wait(ms / 4),
            ),
            _ => wave(27, 8, at_least_one(ms / 52)).push(LedStep::Wait(ms / 3)),
        }
    }
}

/// Adds a wave to a plan.
fn push_wave(plan: &mut Vec<LedStep>, n: u32, drop: u32, wait: u64)
    requires
        n <= 64,
        drop <= 64,
        (n - 1) * drop <= 255,
    ensures
        final(plan)@ == old(plan)@ + wave(n as nat, drop as nat, wait),
{
    let ghost before = plan@;
    let ghost whole = wave(n as nat, drop as nat, wait);
    let mut k: u32 = 0;
    while k < 2 * n
        invariant
            k <= 2 * n,
            n <= 64,
            drop <= 64,
            (n - 1) * drop <= 255,
            whole == wave(n as nat, drop as nat, wait),
            plan@ == before + whole.take(2 * k),
        decreases 2 * n - k,
    {
        let level: u32 = if k < n { k } else { 2 * n - 1 - k };
        assert(level * drop <= (n - 1) * drop) by (nonlinear_arith)
            requires
                level <= n - 1,
                drop >= 0,
        ;
        let duty: u32 = 255u32.saturating_sub(level * drop);
        plan.push(LedStep::Duty(duty as u8));
        plan.push(LedStep::Wait(wait));
        proof {
            assert(whole[2 * k] == LedStep::Duty(duty as u8));
            assert(whole[2 * k + 1] == LedStep::Wait(wait));
            assert(whole.take(2 * (k + 1)) =~= whole.take(2 * k).push(whole[2 * k]).push(
                whole[2 * k + 1],
            ));
        }
        k = k + 1;
    }
    assert(whole.take(4 * n) =~= whole);
}

/// Adds one pulse to a plan.
fn pulse_once(plan: &mut Vec<LedStep>, step_ms: u64)
    ensures
        final(plan)@ == old(plan)@ + pulse(step_ms),
{
    let wait: u64 = if step_ms < 1 { 1 } else { step_ms };
    push_wave(plan, 14, 16, wait);
}

/// What the light does during one beat.
pub fn plan_beat(bpm: u32, mood: Mood, sleeping: bool) -> (plan: Vec<LedStep>)
    ensures
        plan@ == beat(bpm, mood, sleeping),
{
    let rate: u32 = if bpm < 1 { 1 } else { bpm };
    let ms: u64 = 60_000u64 / rate as u64;
    assert(ms <= 60_000) by (nonlinear_arith)
        requires
            rate >= 1,
            ms == 60_000u64 / rate as u64,
    ;
    let mut plan: Vec<LedStep> = Vec::new();
    if sleeping {
        plan.push(LedStep::Duty(20));
        plan.push(LedStep::Wait(200));
        plan.push(LedStep::Duty(0));
        plan.push(LedStep::Wait(ms * 3));
    } else {
        match mood {
            Mood::Exhausted => {
                plan.push(LedStep::Duty(40));
                plan.push(LedStep::Wait(150));
                plan.push(LedStep::Duty(0));
                plan.push(LedStep::Wait(ms * 2));
            },
            Mood::Lonely => {
                pulse_once(&mut plan, ms / 3);
                plan.push(LedStep::Wait(ms + 600));
            },
            Mood::Distressed => {
                pulse_once(&mut plan, ms / 6);
                plan.push(LedStep::Wait(100));
                pulse_once(&mut plan, ms / 6);
                plan.push(LedStep::Wait(ms / 4));
            },
            _ => {
                let step: u64 = ms / 52;
                let wait: u64 = if step < 1 { 1 } else { step };
                push_wave(&mut plan, 27, 8, wait);
                plan.push(LedStep::Wait(ms / 3));
            },
        }
    }
    assert(plan@ =~= beat(bpm, mood, sleeping));
    plan
}

impl Tasy {
    /// What the light does during the next beat.
    pub fn heartbeat(&self) -> (plan: Vec<LedStep>)
        ensures
            plan@ == beat(self.bpm, self.mood, self.sleeping),
    {
        plan_beat(self.bpm, self.mood, self.sleeping)
    }
}

/// In sleep the mood does not show.
pub proof fn law_sleep_hides_mood(bpm: u32, m1: Mood, m2: Mood)
    ensures
        beat(bpm, m1, true) == beat(bpm, m2, true),
{
}

/// The light comes up through the levels through which it went down.
pub proof fn law_wave_mirrors(n: nat, drop: nat, wait: u64, k: int)
    requires
        0 <= k < 2 * n,
    ensures
        wave(n, drop, wait)[2 * k] == wave(n, drop, wait)[2 * (2 * n - 1 - k)],
{
}

/// However fast the heart beats, every beat lights up first and then takes
/// time.
pub proof fn law_beat_takes_time(bpm: u32, mood: Mood, sleeping: bool)
    ensures
        beat(bpm, mood, sleeping).len() >= 2,
        beat(bpm, mood, sleeping)[0] is Duty,
        beat(bpm, mood, sleeping)[1] matches LedStep::Wait(ms) && ms >= 1,
{
}

proof fn lemma_cycle(bpm: u32)
    requires
        bpm >= 1,
    ensures
        cycle(bpm) == 60000int / (bpm as int),
        cycle(bpm) <= 60000,
{
    assert(60000int / (bpm as int) <= 60000) by (nonlinear_arith)
        requires
            bpm >= 1,
    ;
}

/// A heart that stands still is shown as one that beats once a minute.
pub proof fn law_still_heart(mood: Mood, sleeping: bool)
    ensures
        beat(0, mood, sleeping) == beat(1, mood, sleeping),
{
}

/// The light of a sleeper: a faint glimmer of 200 ms, and three heart cycles of
/// dark.
pub proof fn law_beat_of_a_sleeper(bpm: u32, mood: Mood)
    requires
        bpm >= 1,
    ensures
        beat(bpm, mood, true) == seq![
            LedStep::Duty(20),
            LedStep::Wait(200),
            LedStep::Duty(0),
            LedStep::Wait((3 * (60000int / (bpm as int))) as u64),
        ],
        3 * (60000int / (bpm as int)) <= u64::MAX,
{
    lemma_cycle(bpm);
}

/// The light of an exhausted entity: a faint flicker of 150 ms, and two heart
/// cycles of dark. At twice the heart rate the dark is half as long, up to one
/// millisecond for each cycle.
pub proof fn law_beat_of_the_exhausted(bpm: u32)
    requires
        bpm >= 1,
    ensures
        beat(bpm, Mood::Exhausted, false) == seq![
            LedStep::Duty(40),
            LedStep::Wait(150),
            LedStep::Duty(0),
            LedStep::Wait((2 * (60000int / (bpm as int))) as u64),
        ],
        2 * (60000int / (bpm as int)) <= u64::MAX,
        2 * bpm <= u32::MAX ==> {
            let slow = beat(bpm, Mood::Exhausted, false)[3]->Wait_0;
            let fast = beat((2 * bpm) as u32, Mood::Exhausted, false)[3]->Wait_0;
            2 * fast <= slow <= 2 * fast + 2
        },
{
    lemma_cycle(bpm);
    if 2 * bpm <= u32::MAX {
        let b = bpm as int;
        let d = (2 * bpm) as u32;
        lemma_cycle(d);
        let q = 60000int / b;
        let r = 60000int / (2 * b);
        assert(2 * r <= q <= 2 * r + 1) by (nonlinear_arith)
            requires
                b >= 1,
                q == 60000int / b,
                r == 60000int / (2 * b),
        ;
    }
}

/// The light of a lonely entity: one pulse down and up, by 16 in each of 14
/// levels, that stays a third of a heart cycle on each; then a pause that is 600
/// ms longer than a cycle.
pub proof fn law_beat_of_the_lonely(bpm: u32, k: int)
    requires
        bpm >= 1,
        0 <= k < 28,
    ensures
        ({
            let steps = beat(bpm, Mood::Lonely, false);
            let ms = 60000int / (bpm as int);
            let level = if k < 14 { 255 - 16 * k } else { 255 - 16 * (27 - k) };
            let stay = if ms < 3 { 1int } else { ms / 3 };
            &&& steps.len() == 57
            &&& steps[2 * k] == LedStep::Duty(level as u8)
            &&& steps[2 * k + 1] == LedStep::Wait(stay as u64)
            &&& steps[56] == LedStep::Wait((ms + 600) as u64)
            &&& ms <= 60000
        }),
{
    lemma_cycle(bpm);
}

/// The light of a distressed entity: two pulses like that of a lonely one, but
/// twice as fast, 100 ms apart, and a pause of a quarter of a heart cycle.
pub proof fn law_beat_of_the_distressed(bpm: u32, k: int)
    requires
        bpm >= 1,
        0 <= k < 28,
    ensures
        ({
            let steps = beat(bpm, Mood::Distressed, false);
            let ms = 60000int / (bpm as int);
            let level = if k < 14 { 255 - 16 * k } else { 255 - 16 * (27 - k) };
            let stay = if ms < 6 { 1int } else { ms / 6 };
            &&& steps.len() == 114
            &&& steps[2 * k] == LedStep::Duty(level as u8)
            &&& steps[2 * k + 1] == LedStep::Wait(stay as u64)
            &&& steps[56] == LedStep::Wait(100)
            &&& steps[57 + 2 * k] == LedStep::Duty(level as u8)
            &&& steps[57 + 2 * k + 1] == LedStep::Wait(stay as u64)
            &&& steps[113] == LedStep::Wait((ms / 4) as u64)
            &&& ms <= 60000
        }),
{
    lemma_cycle(bpm);
}

/// The light of a calm or curious entity: it fades out and in, by 8 in each of
/// 27 levels, stays one part in 52 of a heart cycle on each, and pauses for a
/// third of a cycle.
pub proof fn law_beat_of_the_calm(bpm: u32, mood: Mood, k: int)
    requires
        bpm >= 1,
        mood == Mood::Calm || mood == Mood::Curious,
        0 <= k < 54,
    ensures
        ({
            let steps = beat(bpm, mood, false);
            let ms = 60000int / (bpm as int);
            let level = if k < 27 { 255 - 8 * k } else { 255 - 8 * (53 - k) };
            let stay = if ms < 52 { 1int } else { ms / 52 };
            &&& steps.len() == 109
            &&& steps[2 * k] == LedStep::Duty(level as u8)
            &&& steps[2 * k + 1] == LedStep::Wait(stay as u64)
            &&& steps[108] == LedStep::Wait((ms / 3) as u64)
            &&& ms <= 60000
        }),
{
    lemma_cycle(bpm);
}

} // verus!
