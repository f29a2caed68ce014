//! What holds of the entity as a whole, whatever happens to it.

use vstd::prelude::*;

use crate::cognition::{drifted, loneliness_gain, LONELINESS_ONSET_SECS};
use crate::command::{command_parts, line_text};
use crate::entity::{lemma_remembering, lowered, TasyView, STAT_MAX};
use crate::event::{offered, Event, EVT_CAP};
use crate::memory::MemoryKind;
use crate::metabolism::{heart_rate, stress_from};
use crate::mood::Mood;
use crate::save_data::SAVE_SIZE;
use crate::session::SLEEP_ONSET_SECS;
use crate::storage::law_load_gives_back_what_was_saved;

verus! {

/// One memory more, in a form that the proofs below can use for every memory
/// that is made.
proof fn lemma_any_memory()
    ensures
        forall|s: TasyView, text: Seq<char>, kind: MemoryKind, importance: u8|
            s.sound() ==> #[trigger] s.remembering(text, kind, importance).sound(),
        forall|s: TasyView, text: Seq<char>, kind: MemoryKind, importance: u8|
            s.readable() ==> #[trigger] s.remembering(text, kind, importance).readable(),
{
    assert forall|s: TasyView, text: Seq<char>, kind: MemoryKind, importance: u8|
        s.sound() implies #[trigger] s.remembering(text, kind, importance).sound() by {
        lemma_remembering(s, text, kind, importance);
    }
    assert forall|s: TasyView, text: Seq<char>, kind: MemoryKind, importance: u8|
        s.readable() implies #[trigger] s.remembering(text, kind, importance).readable() by {
        lemma_remembering(s, text, kind, importance);
    }
}

proof fn lemma_events_keep(s: TasyView)
    ensures
        s.sound() ==> s.after_events().sound(),
        s.readable() ==> s.after_events().readable(),
        s.after_events().mood == s.mood,
        s.after_events().sleeping == s.sleeping,
        s.after_events().stress == s.stress,
        s.after_events().energy == s.energy,
        s.after_events().integrity == s.integrity,
        s.after_events().sync_rate == s.sync_rate,
        s.after_events().personality == s.personality,
        s.after_events().events.len() == 0,
    decreases s.events.len(),
{
    if s.events.len() > 0 {
        lemma_any_memory();
        let t = s.after_event();
        assert(s.sound() ==> t.sound());
        assert(s.readable() ==> t.readable());
        lemma_events_keep(t);
    }
}

/// A sound entity stays sound: no level leaves its range, and nothing outgrows
/// its place, in a second of its session.
pub proof fn law_second_keeps_soundness(s: TasyView)
    requires
        s.sound(),
        s.session_seconds < u32::MAX,
    ensures
        s.after_second().sound(),
{
}

/// A sound entity stays sound in a turn of its metabolism.
pub proof fn law_metabolism_keeps_soundness(s: TasyView)
    requires
        s.sound(),
    ensures
        s.after_metabolism().sound(),
{
}

/// A sound entity stays sound in a cognitive cycle.
pub proof fn law_cognition_keeps_soundness(s: TasyView)
    requires
        s.sound(),
    ensures
        s.after_cognition().sound(),
{
    lemma_any_memory();
    let t = s.after_loneliness();
    assert(t.sound());
    let u = t.after_curiosity();
    assert(u.sound());
    let v = u.after_sync_warning();
    assert(v.sound());
    let w = v.after_stability().after_mood();
    assert(w.sound());
    lemma_events_keep(w);
}

/// A sound entity stays sound whatever line is typed.
pub proof fn law_line_keeps_soundness(s: TasyView, line: Seq<u8>)
    requires
        s.sound(),
    ensures
        s.after_line(line).sound(),
{
    lemma_any_memory();
    assert(s.noticing_user().sound());
}

/// A sound entity is sound after any image was loaded, and a start keeps it so.
pub proof fn law_load_and_start_keep_soundness(s: TasyView, read: Option<Seq<u8>>)
    requires
        s.sound(),
        read is Some ==> read->0.len() == SAVE_SIZE,
    ensures
        s.after_load(read).sound(),
        s.started().sound(),
{
    lemma_any_memory();
    assert(s.reset().sound());
}

/// An entity whose memories can be read can show them.
pub proof fn law_readable_is_presentable(s: TasyView)
    requires
        s.readable(),
    ensures
        s.presentable(),
{
    let shown = s.shown_memories();
    assert forall|i: int| 0 <= i < shown.len() implies (#[trigger] shown[i]).readable() by {
        let at = i + s.memories.len() - shown.len();
        assert(shown[i] == s.memories[at]);
    }
}

/// Memories that can be read stay so in all that the entity does by itself.
pub proof fn law_tasks_keep_memories_readable(s: TasyView)
    requires
        s.readable(),
    ensures
        s.after_second().readable(),
        s.after_metabolism().readable(),
        s.after_cognition().readable(),
{
    assert(s.after_second().memories == s.memories);
    assert(s.after_metabolism().memories == s.memories);
    lemma_cognition_keeps_readable(s);
}

proof fn lemma_cognition_keeps_readable(s: TasyView)
    requires
        s.readable(),
    ensures
        s.after_cognition().readable(),
{
    lemma_any_memory();
    let t = s.after_loneliness();
    assert(t.readable());
    let u = t.after_curiosity();
    assert(u.readable());
    let v = u.after_sync_warning();
    assert(v.readable());
    let w = v.after_stability().after_mood();
    assert(w.readable());
    lemma_events_keep(w);
}

/// Memories that can be read stay so whatever line is typed.
pub proof fn law_line_keeps_memories_readable(s: TasyView, line: Seq<u8>)
    requires
        s.readable(),
    ensures
        s.after_line(line).readable(),
{
    lemma_any_memory();
    assert(s.noticing_user().readable());
}

/// Memories can be read after a start if they could before, after life began
/// anew, and after the image of an entity was loaded whose memories could be
/// read.
pub proof fn law_start_and_load_keep_memories_readable(s: TasyView, t: TasyView)
    requires
        s.sound(),
        s.readable(),
    ensures
        s.started().readable(),
        t.reset().readable(),
        t.after_load(Some(s.saved())).readable(),
{
    lemma_any_memory();
    law_load_gives_back_what_was_saved(s, t);
}

/// Sleep rests the body: sync does not decay, integrity does not suffer, and
/// energy is not spent.
pub proof fn law_sleep_rests(s: TasyView)
    requires
        s.sound(),
        s.sleeping,
    ensures
        s.after_metabolism().sync_rate == s.sync_rate,
        s.after_metabolism().integrity == s.integrity,
        s.after_metabolism().energy >= s.energy,
        s.after_metabolism().bpm == 40,
{
}

/// Aggression strengthens stress, and sync eases it: full sync leaves none, and
/// without any sync stress is at its top.
pub proof fn law_stress_follows_sync(sync1: u32, sync2: u32, aggr1: u8, aggr2: u8)
    requires
        sync1 <= sync2,
        aggr1 <= aggr2,
    ensures
        stress_from(sync1, aggr1) <= stress_from(sync1, aggr2),
        stress_from(sync2, aggr1) <= stress_from(sync1, aggr1),
        stress_from(sync1, aggr1) <= STAT_MAX,
        sync1 >= 100 ==> stress_from(sync1, aggr1) == 0,
        stress_from(0, aggr1) == STAT_MAX,
{
    let b1 = lowered(100, sync1) as int;
    let b2 = lowered(100, sync2) as int;
    assert(b2 <= b1 <= 100);
    assert(0 <= b1 * aggr1 <= b1 * aggr2 <= 25500) by (nonlinear_arith)
        requires
            0 <= b1 <= 100,
            0 <= aggr1 <= aggr2 <= 255,
    ;
    assert(0 <= b2 * aggr1 <= b1 * aggr1) by (nonlinear_arith)
        requires
            0 <= b2 <= b1,
            0 <= aggr1,
    ;
}

/// The heart beats between 60 and 120 times a minute awake, faster under more
/// stress, and 40 times asleep.
pub proof fn law_heart_rate(stress1: u32, stress2: u32)
    requires
        stress1 <= stress2 <= STAT_MAX,
    ensures
        60 <= heart_rate(stress1, false) <= heart_rate(stress2, false) <= 120,
        heart_rate(stress1, true) == 40,
{
}

/// Optimism lets energy come back: with all else equal, an optimist has at
/// least as much energy after a turn.
pub proof fn law_optimism_recovers(s: TasyView, t: TasyView)
    requires
        s.sound(),
        s.personality.optimism <= 50,
        t == (TasyView { personality: t.personality, ..s }),
        t.personality.aggression == s.personality.aggression,
    ensures
        t.after_metabolism().energy >= s.after_metabolism().energy,
{
}

/// The more attached, the faster the entity grows lonely.
pub proof fn law_attachment_feeds_loneliness(a1: u8, a2: u8)
    requires
        a1 <= a2,
    ensures
        1 <= loneliness_gain(a1) <= loneliness_gain(a2),
{
}

/// Loneliness grows only while nobody was there for longer than its onset.
pub proof fn law_company_ends_loneliness(s: TasyView)
    requires
        s.sound(),
    ensures
        s.idle() <= LONELINESS_ONSET_SECS ==> s.after_loneliness().loneliness <= s.loneliness,
        s.idle() > LONELINESS_ONSET_SECS ==> s.after_loneliness().loneliness >= s.loneliness,
        s.idle() > LONELINESS_ONSET_SECS && s.loneliness < STAT_MAX
            ==> s.after_loneliness().loneliness > s.loneliness,
{
}

/// Curiosity comes one step nearer to its base in each cycle, or is there. A
/// base above the range of curiosity counts as the top of it.
pub proof fn law_curiosity_drifts_to_base(level: u32, base: u32)
    requires
        level <= STAT_MAX,
    ensures
        ({
            let goal = if base > STAT_MAX { STAT_MAX } else { base };
            let next = drifted(level, base);
            &&& level < goal ==> next == level + 1
            &&& level > goal ==> next == level - 1
            &&& level == goal ==> next == goal
        }),
{
}

/// After a cognitive cycle no event waits, the mood is the one that fitted
/// before the events were dealt with, and a sleeping entity still sleeps.
pub proof fn law_cognition_settles(s: TasyView)
    ensures
        s.after_cognition().events.len() == 0,
        s.after_cognition().mood == Mood::fitting(
            s.energy,
            s.stress,
            s.after_loneliness().loneliness,
            s.after_curiosity().curiosity,
        ),
        s.after_cognition().sleeping == s.sleeping,
        s.after_cognition().personality == s.personality,
{
    let u = s.after_loneliness().after_curiosity();
    assert(u.loneliness == s.after_loneliness().loneliness);
    assert(u.curiosity == s.after_curiosity().curiosity);
    lemma_events_keep(u.after_sync_warning().after_stability().after_mood());
}

/// The entity falls asleep by itself exactly when it is awake and was left
/// alone for long enough, and nothing but that changes whether it sleeps.
pub proof fn law_falls_asleep_when_left_alone(s: TasyView)
    requires
        s.session_seconds < u32::MAX,
    ensures
        s.after_second().sleeping <==> s.sleeping || lowered(
            (s.session_seconds + 1) as u32,
            s.last_interaction,
        ) >= SLEEP_ONSET_SECS,
        !s.sleeping && s.after_second().sleeping && s.events.len() + 2 < EVT_CAP
            ==> s.after_second().events.last() == Event::SleepEntered,
{
}

/// The entity after `n` seconds.
pub open spec fn after_seconds(s: TasyView, n: nat) -> TasyView
    decreases n,
{
    if n == 0 {
        s
    } else {
        after_seconds(s, (n - 1) as nat).after_second()
    }
}

/// The session counts every second, and a minute has sixty of them.
pub proof fn law_clock_counts(s: TasyView, n: nat)
    requires
        s.minute_seconds < 60,
        s.session_seconds + n <= u32::MAX,
    ensures
        after_seconds(s, n).session_seconds == s.session_seconds + n,
        after_seconds(s, n).minute_seconds == (s.minute_seconds + n) % 60,
    decreases n,
{
    if n > 0 {
        law_clock_counts(s, (n - 1) as nat);
    }
}

/// A full minute, and nothing else, is told of as a minute.
pub proof fn law_minute_is_told(s: TasyView)
    requires
        s.minute_seconds < 60,
    ensures
        s.after_tick().events == (if s.minute_seconds == 59 {
            offered(s.events, Event::TickMinute)
        } else {
            s.events
        }),
{
}

/// A minute rouses the curiosity of an entity that is awake and at ease, and
/// changes nothing else.
pub proof fn law_minute_rouses_curiosity(s: TasyView)
    requires
        s.sound(),
    ensures
        s.affected(Event::TickMinute) == (TasyView {
            curiosity: s.affected(Event::TickMinute).curiosity,
            ..s
        }),
        s.affected(Event::TickMinute).curiosity >= s.curiosity,
        s.affected(Event::TickMinute).curiosity > s.curiosity <==> s.stress < 40 && !s.sleeping
            && s.curiosity < STAT_MAX,
{
}

/// Any command makes the entity less lonely, by the same amount.
pub proof fn law_any_command_comforts(s: TasyView, cmd: Seq<char>)
    ensures
        s.after_command(cmd).loneliness == lowered(s.loneliness, 10),
{
}

/// Any line is an interaction: it is noted as the last one, and the entity is
/// awake after it, unless the line told it to sleep.
pub proof fn law_any_line_wakes(s: TasyView, line: Seq<u8>)
    ensures
        s.after_line(line).last_interaction == s.session_seconds,
        s.after_line(line).sleeping <==> command_parts(line_text(line)).0 == "sleep"@,
        s.after_line(line).should_exit <==> s.should_exit || command_parts(line_text(line)).0
            == "exit"@,
{
    reveal_strlit("name");
    reveal_strlit("msg");
    reveal_strlit("status");
    reveal_strlit("memories");
    reveal_strlit("heal");
    reveal_strlit("boost");
    reveal_strlit("sleep");
    reveal_strlit("wake");
    reveal_strlit("exit");
    assert("sleep"@[0] != "name"@[0] && "sleep"@[0] != "msg"@[0]);
    assert("sleep"@.len() != "status"@.len() && "sleep"@.len() != "memories"@.len());
    assert("sleep"@[0] != "heal"@[0] && "sleep"@[0] != "boost"@[0]);
    assert("exit"@[0] != "name"@[0] && "exit"@[0] != "msg"@[0] && "exit"@[0] != "heal"@[0]);
    assert("exit"@[0] != "wake"@[0] && "exit"@[0] != "boost"@[0]);
    assert("exit"@.len() != "status"@.len() && "exit"@.len() != "memories"@.len());
    assert("exit"@.len() != "sleep"@.len());
}

/// Attachment grows by one, up to its limit, when the user wakes an entity that
/// was lonely in its sleep, and not otherwise. No line changes another trait.
pub proof fn law_return_strengthens_attachment(s: TasyView, line: Seq<u8>)
    requires
        s.personality.attachment <= 100,
    ensures
        ({
            let p = s.after_line(line).personality;
            &&& s.sleeping && s.loneliness > 40 && s.personality.attachment < 100 ==> p.attachment
                == s.personality.attachment + 1
            &&& s.sleeping && s.loneliness > 40 && s.personality.attachment == 100 ==> p.attachment
                == 100
            &&& !s.sleeping || s.loneliness <= 40 ==> p.attachment == s.personality.attachment
            &&& p.curiosity == s.personality.curiosity
            &&& p.aggression == s.personality.aggression
            &&& p.optimism == s.personality.optimism
        }),
{
}

/// A started entity has a name and has counted the start.
pub proof fn law_start_is_counted(s: TasyView)
    requires
        s.boot_count < u32::MAX,
    ensures
        s.started().boot_count == s.boot_count + 1,
        s.name.len() > 0 ==> s.started().name == s.name,
        s.name.len() == 0 ==> s.started().name == s.reset().name,
        s.started().idle() == 0,
{
}

} // verus!
