//! The entity: all that it is at one moment.

use vstd::prelude::*;
use vstd::utf8::{encode_utf8, is_ascii_chars, is_ascii_chars_encode_utf8};

use crate::event::{kept, law_bus_keeps_the_first, offered, Event, EventBus, EVT_CAP};
use crate::memory::{
    gained, law_recorded_memory_is_readable, law_recording_adds_one_memory, remembered, Memory,
    MemoryKind, MemoryLog, MemoryView, MEMORY_CAP, MEMORY_TEXT_CAP,
};
use crate::mood::Mood;
use crate::name::{EntityName, NAME_CAP};
use crate::personality::Personality;
use crate::text::clipped;

verus! {

/// The highest level of a body or feeling.
pub const STAT_MAX: u32 = 100;

/// The name of an entity that nobody has named.
pub open spec fn default_name() -> Seq<u8> {
    clipped(encode_utf8("TASY"@), NAME_CAP as nat)
}

/// `level` lowered by `by`, and not below zero.
pub open spec fn lowered(level: u32, by: u32) -> u32 {
    if level < by {
        0
    } else {
        (level - by) as u32
    }
}

/// `level` raised by `by`, and not above `STAT_MAX`.
pub open spec fn raised(level: u32, by: u32) -> u32 {
    if level + by > STAT_MAX {
        STAT_MAX
    } else {
        (level + by) as u32
    }
}

pub fn raise(level: u32, by: u32) -> (r: u32)
    requires
        level + by <= u32::MAX,
    ensures
        r == raised(level, by),
{
    let sum: u32 = level + by;
    if sum > STAT_MAX {
        STAT_MAX
    } else {
        sum
    }
}

/// The entity, as its tasks and the console share it.
pub struct Tasy {
    /// Body.
    pub sync_rate: u32,
    pub energy: u32,
    pub integrity: u32,
    pub bpm: u32,
    /// Feelings.
    pub stress: u32,
    pub loneliness: u32,
    pub curiosity: u32,
    pub stability: u32,
    pub mood: Mood,
    /// Time, in seconds of the running session, and the number of starts.
    pub session_seconds: u32,
    pub boot_count: u32,
    pub last_interaction: u32,
    /// Seconds since the last full minute.
    pub minute_seconds: u32,
    /// Modes.
    pub sleeping: bool,
    pub should_exit: bool,
    pub show_all_memories: bool,
    /// What makes it this entity and no other.
    pub name: EntityName,
    pub personality: Personality,
    pub memories: MemoryLog,
    pub events: EventBus,
}

/// The entity with its name, memories and events as sequences.
#[verifier::ext_equal]
pub struct TasyView {
    pub sync_rate: u32,
    pub energy: u32,
    pub integrity: u32,
    pub bpm: u32,
    pub stress: u32,
    pub loneliness: u32,
    pub curiosity: u32,
    pub stability: u32,
    pub mood: Mood,
    pub session_seconds: u32,
    pub boot_count: u32,
    pub last_interaction: u32,
    pub minute_seconds: u32,
    pub sleeping: bool,
    pub should_exit: bool,
    pub show_all_memories: bool,
    pub name: Seq<u8>,
    pub personality: Personality,
    pub memories: Seq<MemoryView>,
    pub events: Seq<Event>,
}

impl View for Tasy {
    type V = TasyView;

    open spec fn view(&self) -> TasyView {
        TasyView {
            sync_rate: self.sync_rate,
            energy: self.energy,
            integrity: self.integrity,
            bpm: self.bpm,
            stress: self.stress,
            loneliness: self.loneliness,
            curiosity: self.curiosity,
            stability: self.stability,
            mood: self.mood,
            session_seconds: self.session_seconds,
            boot_count: self.boot_count,
            last_interaction: self.last_interaction,
            minute_seconds: self.minute_seconds,
            sleeping: self.sleeping,
            should_exit: self.should_exit,
            show_all_memories: self.show_all_memories,
            name: self.name@,
            personality: self.personality,
            memories: self.memories@,
            events: self.events@,
        }
    }
}

impl TasyView {
    /// Every level lies between zero and `STAT_MAX`, the heart beats, and name,
    /// memories and events fit their places.
    pub open spec fn sound(self) -> bool {
        &&& self.sync_rate <= STAT_MAX
        &&& self.energy <= STAT_MAX
        &&& self.integrity <= STAT_MAX
        &&& self.bpm >= 1
        &&& self.stress <= STAT_MAX
        &&& self.loneliness <= STAT_MAX
        &&& self.curiosity <= STAT_MAX
        &&& self.stability <= STAT_MAX
        &&& self.minute_seconds < 60
        &&& self.name.len() <= NAME_CAP
        &&& self.memories.len() <= MEMORY_CAP
        &&& forall|i: int|
            0 <= i < self.memories.len() ==> (#[trigger] self.memories[i]).text.len()
                == MEMORY_TEXT_CAP
        &&& self.events.len() < EVT_CAP
    }

    /// Every memory can be read.
    pub open spec fn readable(self) -> bool {
        forall|i: int| 0 <= i < self.memories.len() ==> (#[trigger] self.memories[i]).readable()
    }

    /// The entity before anything was loaded.
    pub open spec fn unborn() -> TasyView {
        TasyView {
            sync_rate: 100,
            energy: 100,
            integrity: 100,
            bpm: 60,
            stress: 0,
            loneliness: 0,
            curiosity: 50,
            stability: 100,
            mood: Mood::Calm,
            session_seconds: 0,
            boot_count: 0,
            last_interaction: 0,
            minute_seconds: 0,
            sleeping: false,
            should_exit: false,
            show_all_memories: false,
            name: Seq::empty(),
            personality: Personality::newborn(),
            memories: Seq::empty(),
            events: Seq::empty(),
        }
    }

    /// The entity with all that is saved set back to how it starts life. What
    /// is not saved stays.
    pub open spec fn reset(self) -> TasyView {
        TasyView {
            minute_seconds: self.minute_seconds,
            sleeping: self.sleeping,
            should_exit: self.should_exit,
            show_all_memories: self.show_all_memories,
            events: self.events,
            name: default_name(),
            ..TasyView::unborn()
        }
    }

    /// The entity with one more memory, made now.
    pub open spec fn remembering(self, text: Seq<char>, kind: MemoryKind, importance: u8) -> TasyView {
        TasyView {
            memories: remembered(
                self.memories,
                MemoryView::recorded(self.session_seconds, text, kind, importance),
            ),
            ..self
        }
    }

    /// The entity after an event was offered to its bus.
    pub open spec fn signalling(self, e: Event) -> TasyView {
        TasyView { events: offered(self.events, e), ..self }
    }

    /// The entity under a new name.
    pub open spec fn named(self, name: Seq<char>) -> TasyView {
        TasyView { name: clipped(encode_utf8(name), NAME_CAP as nat), ..self }
    }

    /// The entity once it has started: it has a name, counts the start, takes
    /// it as an interaction, remembers it and tells of it.
    pub open spec fn started(self) -> TasyView {
        let named = if self.name.len() == 0 {
            self.named("TASY"@)
        } else {
            self
        };
        TasyView {
            boot_count: if named.boot_count == u32::MAX {
                0
            } else {
                (named.boot_count + 1) as u32
            },
            last_interaction: named.session_seconds,
            ..named
        }.remembering("System boot"@, MemoryKind::StateTransition, 80).signalling(Event::WakeUp)
    }
}

/// Memories that are made can be read, so one more memory leaves a readable
/// log readable and a sound entity sound.
pub proof fn lemma_remembering(s: TasyView, text: Seq<char>, kind: MemoryKind, importance: u8)
    ensures
        s.sound() ==> s.remembering(text, kind, importance).sound(),
        s.readable() ==> s.remembering(text, kind, importance).readable(),
{
    law_recorded_memory_is_readable(s.session_seconds, text, kind, importance);
}

impl Tasy {
    pub open spec fn wf(&self) -> bool {
        &&& self.name.wf()
        &&& self.memories.wf()
        &&& self.events.wf()
        &&& self@.sound()
    }

    /// An entity before anything was loaded.
    pub fn new() -> (t: Tasy)
        ensures
            t.wf(),
            t@ == TasyView::unborn(),
    {
        Tasy {
            sync_rate: 100,
            energy: 100,
            integrity: 100,
            bpm: 60,
            stress: 0,
            loneliness: 0,
            curiosity: 50,
            stability: 100,
            mood: Mood::Calm,
            session_seconds: 0,
            boot_count: 0,
            last_interaction: 0,
            minute_seconds: 0,
            sleeping: false,
            should_exit: false,
            show_all_memories: false,
            name: EntityName::empty(),
            personality: Personality::initial(),
            memories: MemoryLog::new(),
            events: EventBus::new(),
        }
    }

    /// The mood that fits how the entity is now.
    pub fn compute_mood(&self) -> (m: Mood)
        ensures
            m == Mood::fitting(self.energy, self.stress, self.loneliness, self.curiosity),
    {
        if self.energy < 20 {
            return Mood::Exhausted;
        }
        if self.stress > 60 {
            return Mood::Distressed;
        }
        if self.loneliness > 60 {
            return Mood::Lonely;
        }
        if self.curiosity > 70 && self.stress < 30 {
            return Mood::Curious;
        }
        Mood::Calm
    }

    /// Remembers `text`. The newest memories stay, the oldest goes when there
    /// is no more room.
    pub fn push_memory(&mut self, text: &str, kind: MemoryKind, importance: u8)
        requires
            old(self).wf(),
        ensures
            final(self).wf(),
            final(self)@ == old(self)@.remembering(text@, kind, importance),
    {
        proof {
            lemma_remembering(self@, text@, kind, importance);
        }
        let m = Memory::record(self.session_seconds, text, kind, importance);
        self.memories.push(m);
    }

    /// Puts an event on the bus; a full bus drops it.
    pub fn event_push(&mut self, e: Event)
        requires
            old(self).wf(),
        ensures
            final(self).wf(),
            final(self)@ == old(self)@.signalling(e),
    {
        self.events.event_push(e);
    }

    pub fn set_entity_name(&mut self, name: &str)
        requires
            old(self).wf(),
        ensures
            final(self).wf(),
            final(self)@ == old(self)@.named(name@),
    {
        self.name = EntityName::from_text(name);
    }

    /// Sets all that is saved back to how the entity starts life.
    pub fn apply_default_state(&mut self)
        requires
            old(self).wf(),
        ensures
            final(self).wf(),
            final(self)@ == old(self)@.reset(),
    {
        self.sync_rate = 100;
        self.energy = 100;
        self.integrity = 100;
        self.bpm = 60;
        self.stress = 0;
        self.loneliness = 0;
        self.curiosity = 50;
        self.stability = 100;
        self.mood = Mood::Calm;
        self.session_seconds = 0;
        self.boot_count = 0;
        self.last_interaction = 0;
        self.name = EntityName::from_text("TASY");
        self.memories = MemoryLog::new();
        self.personality = Personality::initial();
    }

    /// Starts the entity, once what was saved has been loaded.
    pub fn boot(&mut self)
        requires
            old(self).wf(),
        ensures
            final(self).wf(),
            final(self)@ == old(self)@.started(),
    {
        if self.name.len() == 0 {
            self.set_entity_name("TASY");
        }
        self.boot_count = self.boot_count.wrapping_add(1);
        self.last_interaction = self.session_seconds;
        self.push_memory("System boot", MemoryKind::StateTransition, 80);
        self.event_push(Event::WakeUp);
    }
}

/// What the entity remembers is one memory more, made at this second of its
/// session, and changes nothing else of it.
pub proof fn law_remembering_adds_one_memory(
    s: TasyView,
    text: Seq<char>,
    kind: MemoryKind,
    importance: u8,
)
    requires
        s.sound(),
    ensures
        ({
            let t = s.remembering(text, kind, importance);
            &&& gained(s.memories, t.memories, s.session_seconds, text, kind, importance)
            &&& t == (TasyView { memories: t.memories, ..s })
        }),
{
    law_recording_adds_one_memory(s.memories, s.session_seconds, text, kind, importance);
}

/// A new name is the first 32 bytes of what was given, and changes nothing else
/// of the entity.
pub proof fn law_new_name(s: TasyView, name: Seq<char>)
    ensures
        ({
            let t = s.named(name);
            let bytes = encode_utf8(name);
            &&& t == (TasyView { name: t.name, ..s })
            &&& bytes.len() <= 32 ==> t.name == bytes
            &&& bytes.len() > 32 ==> t.name == bytes.take(32)
        }),
{
}

proof fn lemma_default_name()
    ensures
        encode_utf8("TASY"@) == seq![84u8, 65, 83, 89],
{
    reveal_strlit("TASY");
    assert(is_ascii_chars("TASY"@));
    is_ascii_chars_encode_utf8("TASY"@);
    assert(encode_utf8("TASY"@) =~= seq![84u8, 65, 83, 89]);
}

/// An entity that starts life anew has a full and unstressed body, is calm and
/// halfway curious, has lived no second and no start, remembers nothing, has the
/// first personality and bears the name TASY. Its modes, its events and its
/// running minute go on.
pub proof fn law_life_begins_anew(s: TasyView)
    ensures
        ({
            let t = s.reset();
            &&& t.sync_rate == 100 && t.energy == 100 && t.integrity == 100 && t.bpm == 60
            &&& t.stress == 0 && t.loneliness == 0 && t.curiosity == 50 && t.stability == 100
            &&& t.mood == Mood::Calm
            &&& t.session_seconds == 0 && t.boot_count == 0 && t.last_interaction == 0
            &&& t.name == seq![84u8, 65, 83, 89]
            &&& t.personality.curiosity == 60 && t.personality.attachment == 70
            &&& t.personality.aggression == 20 && t.personality.optimism == 65
            &&& t.memories.len() == 0
            &&& t.minute_seconds == s.minute_seconds
            &&& t.sleeping == s.sleeping
            &&& t.should_exit == s.should_exit
            &&& t.show_all_memories == s.show_all_memories
            &&& t.events == s.events
        }),
{
    lemma_default_name();
}

/// A start is counted, is an interaction, is remembered and told of. It names an
/// entity that has no name, and changes nothing else.
pub proof fn law_start(s: TasyView)
    requires
        s.sound(),
    ensures
        ({
            let t = s.started();
            &&& t.boot_count == (s.boot_count + 1) % 0x1_0000_0000
            &&& t.last_interaction == s.session_seconds
            &&& s.name.len() > 0 ==> t.name == s.name
            &&& s.name.len() == 0 ==> t.name == seq![84u8, 65, 83, 89]
            &&& gained(
                s.memories,
                t.memories,
                s.session_seconds,
                "System boot"@,
                MemoryKind::StateTransition,
                80,
            )
            &&& t.events == kept(s.events.push(Event::WakeUp))
            &&& t == (TasyView {
                boot_count: t.boot_count,
                last_interaction: t.last_interaction,
                name: t.name,
                memories: t.memories,
                events: t.events,
                ..s
            })
        }),
{
    lemma_default_name();
    law_recording_adds_one_memory(
        s.memories,
        s.session_seconds,
        "System boot"@,
        MemoryKind::StateTransition,
        80,
    );
    law_bus_keeps_the_first(s.events, Event::WakeUp);
}

/// An entity before anything was loaded is as one whose life begins anew, but
/// for its name, which it has not yet. It is awake, nothing was asked of it,
/// nothing waits, and no second of a minute has passed. Whatever it was before,
/// life begins anew from there.
pub proof fn law_unborn(s: TasyView)
    ensures
        ({
            let t = TasyView::unborn();
            &&& t.name.len() == 0
            &&& t.minute_seconds == 0
            &&& !t.sleeping && !t.should_exit && !t.show_all_memories
            &&& t.events.len() == 0
            &&& s.reset() == (TasyView {
                name: s.reset().name,
                minute_seconds: s.minute_seconds,
                sleeping: s.sleeping,
                should_exit: s.should_exit,
                show_all_memories: s.show_all_memories,
                events: s.events,
                ..t
            })
        }),
{
}

/// A level is raised by what is added to it, up to 100, and lowered by what is
/// taken from it, down to zero. Within these limits one undoes the other.
pub proof fn law_levels_have_limits(level: u32, by: u32)
    ensures
        level + by <= 100 ==> raised(level, by) == level + by,
        level + by > 100 ==> raised(level, by) == 100,
        by <= level ==> lowered(level, by) == level - by,
        by > level ==> lowered(level, by) == 0,
        level + by <= 100 ==> lowered(raised(level, by), by) == level,
{
}

} // verus!
