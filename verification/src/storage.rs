//! Saving the entity and loading it again.

use vstd::prelude::*;

use crate::checksum::{checksum, checksum_of, law_checksum_sees_any_single_byte};
use crate::entity::{Tasy, TasyView, STAT_MAX};
use crate::memory::{Memory, MemoryLog, MemoryView, MEMORY_CAP};
use crate::mood::Mood;
use crate::name::{EntityName, NAME_CAP};
use crate::save_data::{
    holds_word, law_image_holds_no_more, law_image_keeps_content, le_word, lemma_bytes_of_word,
    SaveData, SaveDataView, SAVE_MAGIC, SAVE_SIZE, SAVE_VERSION,
};

verus! {

/// Where the image lies in a flash of `capacity` bytes: at the start of its
/// last sector.
pub fn save_offset(capacity: u32, sector_size: u32) -> (at: u32)
    requires
        sector_size <= capacity,
    ensures
        at == capacity - sector_size,
        SAVE_SIZE <= sector_size ==> at + SAVE_SIZE <= capacity,
{
    capacity - sector_size
}

/// `v`, and not more than `max`.
pub open spec fn at_most(v: u32, max: u32) -> u32 {
    if v > max {
        max
    } else {
        v
    }
}

fn bound(v: u32, max: u32) -> (r: u32)
    ensures
        r == at_most(v, max),
{
    if v > max {
        max
    } else {
        v
    }
}

impl SaveDataView {
    /// The content that the checksum is taken of: its own place holds zero.
    pub open spec fn unsigned(self) -> SaveDataView {
        SaveDataView { checksum: 0, ..self }
    }

    /// The content with its checksum in place.
    pub open spec fn signed(self) -> SaveDataView {
        SaveDataView { checksum: checksum_of(self.unsigned().image()), ..self }
    }

    /// The content was saved in this layout and is still what was saved.
    pub open spec fn accepted(self) -> bool {
        &&& self.magic == SAVE_MAGIC
        &&& self.version == SAVE_VERSION
        &&& self.checksum == checksum_of(self.unsigned().image())
    }
}

impl TasyView {
    /// What is saved of the entity.
    pub open spec fn snapshot(self) -> SaveDataView {
        SaveDataView {
            sync_rate: self.sync_rate,
            energy: self.energy,
            integrity: self.integrity,
            bpm: self.bpm,
            stress: self.stress,
            loneliness: self.loneliness,
            curiosity: self.curiosity,
            stability: self.stability,
            mood: self.mood.spec_code(),
            session_seconds: self.session_seconds,
            boot_count: self.boot_count,
            last_interaction: self.last_interaction,
            name_len: self.name.len() as u8,
            memory_count: self.memories.len() as u8,
            entity_name: EntityName::spec_padded(self.name),
            personality: self.personality,
            memories: Seq::new(
                MEMORY_CAP as nat,
                |i: int|
                    if i < self.memories.len() {
                        self.memories[i]
                    } else {
                        MemoryView::empty()
                    },
            ),
            ..SaveDataView::initial()
        }
    }

    /// The image of the entity.
    pub open spec fn saved(self) -> Seq<u8> {
        self.snapshot().signed().image()
    }

    /// The entity with all that is saved taken from `d`. Levels are brought
    /// into their range; what is not saved stays.
    pub open spec fn restored(self, d: SaveDataView) -> TasyView {
        TasyView {
            sync_rate: at_most(d.sync_rate, 100),
            energy: at_most(d.energy, 100),
            integrity: at_most(d.integrity, 100),
            bpm: if d.bpm < 1 { 1 } else { d.bpm },
            stress: at_most(d.stress, STAT_MAX),
            loneliness: at_most(d.loneliness, STAT_MAX),
            curiosity: at_most(d.curiosity, STAT_MAX),
            stability: at_most(d.stability, STAT_MAX),
            mood: Mood::of_code(at_most(d.mood, 4)),
            session_seconds: d.session_seconds,
            boot_count: d.boot_count,
            last_interaction: d.last_interaction,
            name: d.entity_name.take(at_most(d.name_len as u32, NAME_CAP as u32) as int),
            personality: d.personality,
            memories: d.memories.take(at_most(d.memory_count as u32, MEMORY_CAP as u32) as int),
            ..self
        }
    }

    /// The entity after loading: from the image that was read, if it is
    /// accepted, and else as it starts life.
    pub open spec fn after_load(self, read: Option<Seq<u8>>) -> TasyView {
        match read {
            Some(b) => if SaveDataView::parsed(b).accepted() {
                self.restored(SaveDataView::parsed(b))
            } else {
                self.reset()
            },
            None => self.reset(),
        }
    }
}

impl Tasy {
    /// What is saved of the entity, without a checksum.
    fn to_save_data(&self) -> (d: SaveData)
        requires
            self.wf(),
        ensures
            d@ == self@.snapshot(),
    {
        let mut d = SaveData::default_state();
        d.sync_rate = self.sync_rate;
        d.energy = self.energy;
        d.integrity = self.integrity;
        d.bpm = self.bpm;
        d.stress = self.stress;
        d.loneliness = self.loneliness;
        d.curiosity = self.curiosity;
        d.stability = self.stability;
        d.mood = self.mood.code();
        d.session_seconds = self.session_seconds;
        d.boot_count = self.boot_count;
        d.last_interaction = self.last_interaction;
        d.name_len = self.name.len() as u8;
        d.entity_name = self.name.padded();
        d.personality = self.personality;
        let count: usize = self.memories.len();
        d.memory_count = count as u8;
        let mut memories = [Memory::empty(); MEMORY_CAP];
        let mut i: usize = 0;
        while i < count
            invariant
                self.wf(),
                i <= count <= MEMORY_CAP,
                count == self@.memories.len(),
                forall|k: int| 0 <= k < i ==> (#[trigger] memories@[k])@ == self@.memories[k],
                forall|k: int|
                    i <= k < MEMORY_CAP ==> (#[trigger] memories@[k])@ == MemoryView::empty(),
            decreases count - i,
        {
            memories[i] = self.memories.get(i);
            i = i + 1;
        }
        d.memories = memories;
        assert(d@.memories =~= self@.snapshot().memories);
        d
    }

    /// The image of the entity, to be written at the place that `save_offset`
    /// gives.
    pub fn save_state(&self) -> (b: [u8; SAVE_SIZE])
        requires
            self.wf(),
        ensures
            b@ == self@.saved(),
    {
        let mut d = self.to_save_data();
        d.checksum = 0;
        assert(d@ =~= self@.snapshot().unsigned());
        let raw: [u8; SAVE_SIZE] = d.to_bytes();
        d.checksum = checksum(raw.as_slice());
        assert(d@ =~= self@.snapshot().signed());
        d.to_bytes()
    }

    fn restore(&mut self, d: &SaveData)
        requires
            old(self).wf(),
        ensures
            final(self).wf(),
            final(self)@ == old(self)@.restored(d@),
    {
        self.sync_rate = bound(d.sync_rate, 100);
        self.energy = bound(d.energy, 100);
        self.integrity = bound(d.integrity, 100);
        self.bpm = if d.bpm < 1 { 1 } else { d.bpm };
        self.stress = bound(d.stress, STAT_MAX);
        self.loneliness = bound(d.loneliness, STAT_MAX);
        self.curiosity = bound(d.curiosity, STAT_MAX);
        self.stability = bound(d.stability, STAT_MAX);
        self.mood = Mood::from_u32(bound(d.mood, 4));
        self.session_seconds = d.session_seconds;
        self.boot_count = d.boot_count;
        self.last_interaction = d.last_interaction;

        let name_len: usize = bound(d.name_len as u32, NAME_CAP as u32) as usize;
        self.name = EntityName::from_bytes(
            vstd::slice::slice_subrange(d.entity_name.as_slice(), 0, name_len),
        );
        assert(self.name@ =~= d@.entity_name.take(name_len as int));

        self.personality = d.personality;

        let count: usize = bound(d.memory_count as u32, MEMORY_CAP as u32) as usize;
        self.memories = MemoryLog::from_slots(&d.memories, count);
        assert(self.memories@ =~= d@.memories.take(count as int));
    }

    /// Loads the entity from the image that was read, or from nothing where
    /// reading failed. What is not accepted is not loaded: the entity then
    /// starts life anew.
    pub fn load_state(&mut self, read: Option<&[u8; SAVE_SIZE]>)
        requires
            old(self).wf(),
        ensures
            final(self).wf(),
            read is None ==> final(self)@ == old(self)@.after_load(None),
            read is Some ==> final(self)@ == old(self)@.after_load(Some((read->0)@)),
    {
        match read {
            None => {
                self.apply_default_state();
            },
            Some(b) => {
                let mut d = SaveData::from_bytes(b);
                let ghost parsed = d@;
                if d.magic != SAVE_MAGIC || d.version != SAVE_VERSION {
                    self.apply_default_state();
                    return ;
                }
                let saved: u32 = d.checksum;
                d.checksum = 0;
                assert(d@ =~= parsed.unsigned());
                let raw: [u8; SAVE_SIZE] = d.to_bytes();
                if checksum(raw.as_slice()) != saved {
                    self.apply_default_state();
                    return ;
                }
                self.restore(&d);
            },
        }
    }
}

/// What is saved of a sound entity fits the layout.
proof fn lemma_snapshot_fits(s: TasyView)
    requires
        s.sound(),
    ensures
        s.snapshot().wf(),
        s.snapshot().signed().wf(),
{
}

/// The image of a sound entity holds what was saved, and is accepted.
proof fn lemma_saved_is_accepted(s: TasyView)
    requires
        s.sound(),
    ensures
        SaveDataView::parsed(s.saved()) == s.snapshot().signed(),
        s.snapshot().signed().accepted(),
{
    let d = s.snapshot().signed();
    lemma_snapshot_fits(s);
    law_image_keeps_content(d);
    assert(d.unsigned() =~= s.snapshot().unsigned());
}

/// What is saved of a sound entity makes it again, whatever its checksum.
proof fn lemma_snapshot_restored(s: TasyView, t: TasyView, sum: u32)
    requires
        s.sound(),
    ensures
        t.restored(SaveDataView { checksum: sum, ..s.snapshot() }) == (TasyView {
            minute_seconds: t.minute_seconds,
            sleeping: t.sleeping,
            should_exit: t.should_exit,
            show_all_memories: t.show_all_memories,
            events: t.events,
            ..s
        }),
{
    let d = SaveDataView { checksum: sum, ..s.snapshot() };
    let loaded = t.restored(d);
    assert(loaded.name =~= s.name);
    assert(loaded.memories =~= s.memories);
}

/// What is saved is loaded again: an entity that loads the image of a sound
/// one becomes that one in all that is saved. Only the modes, the waiting
/// events and the running minute are its own.
pub proof fn law_load_gives_back_what_was_saved(s: TasyView, t: TasyView)
    requires
        s.sound(),
    ensures
        t.after_load(Some(s.saved())) == (TasyView {
            minute_seconds: t.minute_seconds,
            sleeping: t.sleeping,
            should_exit: t.should_exit,
            show_all_memories: t.show_all_memories,
            events: t.events,
            ..s
        }),
{
    lemma_saved_is_accepted(s);
    lemma_snapshot_restored(s, t, s.snapshot().signed().checksum);
}

/// Saving again what was loaded writes the same image.
pub proof fn law_saving_twice_is_saving_once(s: TasyView, t: TasyView)
    requires
        s.sound(),
    ensures
        t.after_load(Some(s.saved())).saved() == s.saved(),
{
    law_load_gives_back_what_was_saved(s, t);
    assert(t.after_load(Some(s.saved())).snapshot() =~= s.snapshot());
}

/// An image of another layout, or of none, is not loaded.
pub proof fn law_foreign_image_resets(t: TasyView, b: Seq<u8>)
    requires
        le_word(b, 0) != SAVE_MAGIC || le_word(b, 4) != SAVE_VERSION,
    ensures
        t.after_load(Some(b)) == t.reset(),
{
}

/// An image with zeroes in place of its checksum.
pub open spec fn without_checksum(b: Seq<u8>) -> Seq<u8> {
    b.update(8, 0).update(9, 0).update(10, 0).update(11, 0)
}

/// The image that a checksum is taken of is the saved one with zeroes in place
/// of the checksum.
proof fn lemma_unsigned_image(b: Seq<u8>)
    requires
        b.len() == SAVE_SIZE,
    ensures
        SaveDataView::parsed(b).unsigned().image() == without_checksum(b),
        SaveDataView::parsed(b).checksum == le_word(b, 8),
{
    let d = SaveDataView::parsed(b);
    law_image_holds_no_more(b);
    assert forall|i: int| 0 <= i < SAVE_SIZE implies d.unsigned().byte(i) == without_checksum(
        b,
    )[i] by {
        assert(d.image()[i] == b[i]);
        if i < 60 && i / 4 != 2 {
            assert(d.unsigned().word(i / 4) == d.word(i / 4));
        }
    }
    assert(d.unsigned().image() =~= without_checksum(b));
}

/// An image that is accepted is no longer accepted once one byte of it has
/// changed, whichever byte it is.
pub proof fn law_damaged_image_is_refused(good: Seq<u8>, i: int, b: u8)
    requires
        good.len() == SAVE_SIZE,
        SaveDataView::parsed(good).accepted(),
        0 <= i < SAVE_SIZE,
        good[i] != b,
    ensures
        !SaveDataView::parsed(good.update(i, b)).accepted(),
{
    let bad = good.update(i, b);
    lemma_unsigned_image(good);
    lemma_unsigned_image(bad);
    if 8 <= i < 12 {
        assert(without_checksum(bad) =~= without_checksum(good));
        lemma_bytes_of_word(good, 8);
        lemma_bytes_of_word(bad, 8);
        assert(le_word(bad, 8) != le_word(good, 8));
    } else {
        assert(without_checksum(bad) =~= without_checksum(good).update(i, b));
        law_checksum_sees_any_single_byte(without_checksum(good), i, b);
    }
}

/// An entity never loads a saved image that was damaged in one byte: it starts
/// life anew.
pub proof fn law_damaged_image_resets(s: TasyView, t: TasyView, i: int, b: u8)
    requires
        s.sound(),
        0 <= i < SAVE_SIZE,
        s.saved()[i] != b,
    ensures
        t.after_load(Some(s.saved().update(i, b))) == t.reset(),
{
    lemma_saved_is_accepted(s);
    law_damaged_image_is_refused(s.saved(), i, b);
}

/// `d` is what is saved of `s`: every level, count and trait as it is, and the
/// name and the memories with nothing behind them.
pub open spec fn keeps(d: SaveDataView, s: TasyView) -> bool {
    &&& d.sync_rate == s.sync_rate
    &&& d.energy == s.energy
    &&& d.integrity == s.integrity
    &&& d.bpm == s.bpm
    &&& d.stress == s.stress
    &&& d.loneliness == s.loneliness
    &&& d.curiosity == s.curiosity
    &&& d.stability == s.stability
    &&& Mood::of_code(d.mood) == s.mood && d.mood <= 4
    &&& d.session_seconds == s.session_seconds
    &&& d.boot_count == s.boot_count
    &&& d.last_interaction == s.last_interaction
    &&& d.name_len == s.name.len()
    &&& d.memory_count == s.memories.len()
    &&& d.personality == s.personality
    &&& d.pad == seq![0u8, 0]
    &&& d.entity_name.take(s.name.len() as int) == s.name
    &&& forall|i: int| s.name.len() <= i < 32 ==> #[trigger] d.entity_name[i] == 0
    &&& d.memories.take(s.memories.len() as int) == s.memories
    &&& forall|i: int|
        s.memories.len() <= i < 32 ==> #[trigger] d.memories[i] == MemoryView::empty()
}

proof fn lemma_snapshot_keeps(s: TasyView)
    requires
        s.sound(),
    ensures
        keeps(s.snapshot().signed(), s),
{
    let d = s.snapshot().signed();
    assert(d.entity_name.take(s.name.len() as int) =~= s.name);
    assert(d.memories.take(s.memories.len() as int) =~= s.memories);
}

/// What is saved of an entity holds all of it that lasts, under the mark and the
/// version of this layout and with a checksum of all the rest.
pub proof fn law_saved_content(s: TasyView)
    requires
        s.sound(),
    ensures
        keeps(SaveDataView::parsed(s.saved()), s),
        s.saved().len() == 2404,
        genuine(s.saved()),
{
    lemma_saved_is_accepted(s);
    lemma_snapshot_keeps(s);
    lemma_genuine(s.saved());
}

/// The image bears the mark and the version of this layout, and a checksum that
/// is right for the rest of it.
pub open spec fn genuine(b: Seq<u8>) -> bool {
    &&& holds_word(b, 0, 0x5453_5959)
    &&& holds_word(b, 4, 2)
    &&& holds_word(b, 8, checksum_of(without_checksum(b)))
}

proof fn lemma_genuine(b: Seq<u8>)
    requires
        b.len() == SAVE_SIZE,
    ensures
        SaveDataView::parsed(b).accepted() <==> genuine(b),
{
    lemma_unsigned_image(b);
}

/// `after` is `v` where `v` is at most 100, and 100 where it is more.
pub open spec fn capped(v: u32, after: u32) -> bool {
    &&& v <= 100 ==> after == v
    &&& v > 100 ==> after == 100
}

/// A genuine image is taken over: levels above 100 count as 100, a heart that
/// stands still as one beat a minute, an unknown mood as exhaustion, a name
/// beyond 32 bytes and memories beyond 32 as that many. What is not saved stays.
pub proof fn law_genuine_image_is_taken_over(t: TasyView, b: Seq<u8>)
    requires
        b.len() == 2404,
        genuine(b),
    ensures
        ({
            let d = SaveDataView::parsed(b);
            let u = t.after_load(Some(b));
            &&& capped(d.sync_rate, u.sync_rate)
            &&& capped(d.energy, u.energy)
            &&& capped(d.integrity, u.integrity)
            &&& capped(d.stress, u.stress)
            &&& capped(d.loneliness, u.loneliness)
            &&& capped(d.curiosity, u.curiosity)
            &&& capped(d.stability, u.stability)
            &&& d.bpm >= 1 ==> u.bpm == d.bpm
            &&& d.bpm == 0 ==> u.bpm == 1
            &&& d.mood <= 4 ==> u.mood.spec_code() == d.mood
            &&& d.mood > 4 ==> u.mood == Mood::Exhausted
            &&& u.session_seconds == d.session_seconds
            &&& u.boot_count == d.boot_count
            &&& u.last_interaction == d.last_interaction
            &&& u.name == d.entity_name.take(
                if d.name_len <= 32 {
                    d.name_len as int
                } else {
                    32
                },
            )
            &&& u.personality == d.personality
            &&& u.memories == d.memories.take(
                if d.memory_count <= 32 {
                    d.memory_count as int
                } else {
                    32
                },
            )
            &&& u.minute_seconds == t.minute_seconds
            &&& u.sleeping == t.sleeping
            &&& u.should_exit == t.should_exit
            &&& u.show_all_memories == t.show_all_memories
            &&& u.events == t.events
        }),
{
    lemma_genuine(b);
}

/// What is not a genuine image, or could not be read, has life begin anew.
pub proof fn law_other_images_reset(t: TasyView, b: Seq<u8>)
    requires
        b.len() == 2404,
    ensures
        !genuine(b) ==> t.after_load(Some(b)) == t.reset(),
        t.after_load(None) == t.reset(),
{
    lemma_genuine(b);
}

/// The first content of an image is what is saved of an entity before anything
/// was loaded, without its checksum.
pub proof fn law_initial_content()
    ensures
        keeps(SaveDataView::initial(), TasyView::unborn()),
        SaveDataView::initial().magic == 0x5453_5959,
        SaveDataView::initial().version == 2,
        SaveDataView::initial().checksum == 0,
{
    let (d, s) = (SaveDataView::initial(), TasyView::unborn());
    assert(d.entity_name.take(0) =~= s.name);
    assert(d.memories.take(0) =~= s.memories);
}

} // verus!
