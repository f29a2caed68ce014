//! The layout of a saved image.
//!
//! ```text
//!    0  magic, version, checksum
//!   12  sync rate, energy, integrity, heart rate
//!   28  stress, loneliness, curiosity, stability, mood
//!   48  session seconds, number of starts, last interaction
//!   60  length of the name, number of memories, two bytes of padding
//!   64  name
//!   96  personality
//!  100  memories, 72 bytes each
//! 2404  end
//! ```
//!
//! Words have four bytes, the lowest first.

use vstd::prelude::*;

use crate::memory::{Memory, MemoryView, MEMORY_CAP, MEMORY_TEXT_CAP};
use crate::name::NAME_CAP;
use crate::personality::Personality;

verus! {

pub const SAVE_MAGIC: u32 = 0x5453_5959;

/// The version of the layout. An image of another version is not loaded.
pub const SAVE_VERSION: u32 = 2;

/// Where the words end and the counts begin.
pub const COUNTS_AT: usize = 60;

pub const NAME_AT: usize = 64;

pub const PERSONALITY_AT: usize = 96;

pub const MEMORIES_AT: usize = 100;

/// Size of one memory in an image.
pub const MEMORY_SIZE: usize = 72;

/// Size of an image.
pub const SAVE_SIZE: usize = 2404;

/// The content of an image, field by field.
pub struct SaveData {
    pub magic: u32,
    pub version: u32,
    pub checksum: u32,
    pub sync_rate: u32,
    pub energy: u32,
    pub integrity: u32,
    pub bpm: u32,
    pub stress: u32,
    pub loneliness: u32,
    pub curiosity: u32,
    pub stability: u32,
    pub mood: u32,
    pub session_seconds: u32,
    pub boot_count: u32,
    pub last_interaction: u32,
    pub name_len: u8,
    pub memory_count: u8,
    pub pad: [u8; 2],
    pub entity_name: [u8; NAME_CAP],
    pub personality: Personality,
    pub memories: [Memory; MEMORY_CAP],
}

/// The content of an image with its arrays as sequences.
#[verifier::ext_equal]
pub struct SaveDataView {
    pub magic: u32,
    pub version: u32,
    pub checksum: u32,
    pub sync_rate: u32,
    pub energy: u32,
    pub integrity: u32,
    pub bpm: u32,
    pub stress: u32,
    pub loneliness: u32,
    pub curiosity: u32,
    pub stability: u32,
    pub mood: u32,
    pub session_seconds: u32,
    pub boot_count: u32,
    pub last_interaction: u32,
    pub name_len: u8,
    pub memory_count: u8,
    pub pad: Seq<u8>,
    pub entity_name: Seq<u8>,
    pub personality: Personality,
    pub memories: Seq<MemoryView>,
}

impl View for SaveData {
    type V = SaveDataView;

    open spec fn view(&self) -> SaveDataView {
        SaveDataView {
            magic: self.magic,
            version: self.version,
            checksum: self.checksum,
            sync_rate: self.sync_rate,
            energy: self.energy,
            integrity: self.integrity,
            bpm: self.bpm,
            stress: self.stress,
            loneliness: self.loneliness,
            curiosity: self.curiosity,
            stability: self.stability,
            mood: self.mood,
            session_seconds: self.session_seconds,
            boot_count: self.boot_count,
            last_interaction: self.last_interaction,
            name_len: self.name_len,
            memory_count: self.memory_count,
            pad: self.pad@,
            entity_name: self.entity_name@,
            personality: self.personality,
            memories: Seq::new(MEMORY_CAP as nat, |i: int| self.memories@[i]@),
        }
    }
}

/// Byte `k` of a word, the lowest first.
pub open spec fn le_byte(w: u32, k: int) -> u8 {
    if k == 0 {
        (w % 256) as u8
    } else if k == 1 {
        (w / 256 % 256) as u8
    } else if k == 2 {
        (w / 65536 % 256) as u8
    } else {
        (w / 16777216) as u8
    }
}

/// The word whose bytes stand at `at`.
pub open spec fn le_word(b: Seq<u8>, at: int) -> u32 {
    (b[at] + b[at + 1] * 256 + b[at + 2] * 65536 + b[at + 3] * 16777216) as u32
}

/// Byte `j` of a memory.
pub open spec fn memory_byte(m: MemoryView, j: int) -> u8 {
    if j < 4 {
        le_byte(m.timestamp, j)
    } else if j == 4 {
        m.importance
    } else if j == 5 {
        m.kind
    } else if j == 6 {
        m.len
    } else if j == 7 {
        m.pad
    } else {
        m.text[j - 8]
    }
}

/// The memory whose bytes stand at `at`.
pub open spec fn memory_at(b: Seq<u8>, at: int) -> MemoryView {
    MemoryView {
        timestamp: le_word(b, at),
        importance: b[at + 4],
        kind: b[at + 5],
        len: b[at + 6],
        pad: b[at + 7],
        text: b.subrange(at + 8, at + MEMORY_SIZE),
    }
}

impl SaveDataView {
    pub open spec fn wf(self) -> bool {
        &&& self.pad.len() == 2
        &&& self.entity_name.len() == NAME_CAP
        &&& self.memories.len() == MEMORY_CAP
        &&& forall|i: int|
            0 <= i < MEMORY_CAP ==> (#[trigger] self.memories[i]).text.len() == MEMORY_TEXT_CAP
    }

    /// The content of the image of an entity that has not lived yet, with
    /// neither name nor checksum.
    pub open spec fn initial() -> SaveDataView {
        SaveDataView {
            magic: SAVE_MAGIC,
            version: SAVE_VERSION,
            checksum: 0,
            sync_rate: 100,
            energy: 100,
            integrity: 100,
            bpm: 60,
            stress: 0,
            loneliness: 0,
            curiosity: 50,
            stability: 100,
            mood: 0,
            session_seconds: 0,
            boot_count: 0,
            last_interaction: 0,
            name_len: 0,
            memory_count: 0,
            pad: seq![0u8, 0u8],
            entity_name: Seq::new(NAME_CAP as nat, |i: int| 0u8),
            personality: Personality::newborn(),
            memories: Seq::new(MEMORY_CAP as nat, |i: int| MemoryView::empty()),
        }
    }

    /// Word `k` of the image.
    pub open spec fn word(self, k: int) -> u32 {
        if k == 0 {
            self.magic
        } else if k == 1 {
            self.version
        } else if k == 2 {
            self.checksum
        } else if k == 3 {
            self.sync_rate
        } else if k == 4 {
            self.energy
        } else if k == 5 {
            self.integrity
        } else if k == 6 {
            self.bpm
        } else if k == 7 {
            self.stress
        } else if k == 8 {
            self.loneliness
        } else if k == 9 {
            self.curiosity
        } else if k == 10 {
            self.stability
        } else if k == 11 {
            self.mood
        } else if k == 12 {
            self.session_seconds
        } else if k == 13 {
            self.boot_count
        } else {
            self.last_interaction
        }
    }

    /// Byte `i` of the image.
    pub open spec fn byte(self, i: int) -> u8 {
        if i < COUNTS_AT {
            le_byte(self.word(i / 4), i % 4)
        } else if i == COUNTS_AT {
            self.name_len
        } else if i == COUNTS_AT + 1 {
            self.memory_count
        } else if i < NAME_AT {
            self.pad[i - COUNTS_AT - 2]
        } else if i < PERSONALITY_AT {
            self.entity_name[i - NAME_AT]
        } else if i == PERSONALITY_AT {
            self.personality.curiosity
        } else if i == PERSONALITY_AT + 1 {
            self.personality.attachment
        } else if i == PERSONALITY_AT + 2 {
            self.personality.aggression
        } else if i == PERSONALITY_AT + 3 {
            self.personality.optimism
        } else {
            memory_byte(
                self.memories[(i - MEMORIES_AT) / (MEMORY_SIZE as int)],
                (i - MEMORIES_AT) % (MEMORY_SIZE as int),
            )
        }
    }

    /// The image.
    pub open spec fn image(self) -> Seq<u8> {
        Seq::new(SAVE_SIZE as nat, |i: int| self.byte(i))
    }

    /// The content that an image holds.
    pub open spec fn parsed(b: Seq<u8>) -> SaveDataView {
        SaveDataView {
            magic: le_word(b, 0),
            version: le_word(b, 4),
            checksum: le_word(b, 8),
            sync_rate: le_word(b, 12),
            energy: le_word(b, 16),
            integrity: le_word(b, 20),
            bpm: le_word(b, 24),
            stress: le_word(b, 28),
            loneliness: le_word(b, 32),
            curiosity: le_word(b, 36),
            stability: le_word(b, 40),
            mood: le_word(b, 44),
            session_seconds: le_word(b, 48),
            boot_count: le_word(b, 52),
            last_interaction: le_word(b, 56),
            name_len: b[60],
            memory_count: b[61],
            pad: b.subrange(62, 64),
            entity_name: b.subrange(NAME_AT as int, PERSONALITY_AT as int),
            personality: Personality {
                curiosity: b[96],
                attachment: b[97],
                aggression: b[98],
                optimism: b[99],
            },
            memories: Seq::new(
                MEMORY_CAP as nat,
                |i: int| memory_at(b, MEMORIES_AT + i * MEMORY_SIZE),
            ),
        }
    }
}

/// Reads the word whose bytes stand at `at`.
fn read_word(b: &[u8; SAVE_SIZE], at: usize) -> (w: u32)
    requires
        at + 4 <= SAVE_SIZE,
    ensures
        w == le_word(b@, at as int),
{
    b[at] as u32 + b[at + 1] as u32 * 256 + b[at + 2] as u32 * 65536 + b[at + 3] as u32 * 16777216
}

/// Reads the memory whose bytes stand at `at`.
fn read_memory(b: &[u8; SAVE_SIZE], at: usize) -> (m: Memory)
    requires
        at + MEMORY_SIZE <= SAVE_SIZE,
    ensures
        m@ == memory_at(b@, at as int),
{
    let mut text = [0u8; MEMORY_TEXT_CAP];
    let mut j: usize = 0;
    while j < MEMORY_TEXT_CAP
        invariant
            j <= MEMORY_TEXT_CAP,
            at + MEMORY_SIZE <= SAVE_SIZE,
            forall|k: int| 0 <= k < j ==> text@[k] == b@[at + 8 + k],
        decreases MEMORY_TEXT_CAP - j,
    {
        text[j] = b[at + 8 + j];
        j = j + 1;
    }
    let m = Memory {
        timestamp: read_word(b, at),
        importance: b[at + 4],
        kind: b[at + 5],
        len: b[at + 6],
        pad: b[at + 7],
        text,
    };
    assert(m@.text =~= memory_at(b@, at as int).text);
    m
}

/// Byte `k` of the word `w`.
fn word_byte(w: u32, k: usize) -> (b: u8)
    requires
        k < 4,
    ensures
        b == le_byte(w, k as int),
{
    if k == 0 {
        (w % 256) as u8
    } else if k == 1 {
        (w / 256 % 256) as u8
    } else if k == 2 {
        (w / 65536 % 256) as u8
    } else {
        (w / 16777216) as u8
    }
}

impl SaveData {
    /// The content of the image of an entity that has not lived yet.
    pub fn default_state() -> (d: SaveData)
        ensures
            d@ == SaveDataView::initial(),
    {
        let d = SaveData {
            magic: SAVE_MAGIC,
            version: SAVE_VERSION,
            checksum: 0,
            sync_rate: 100,
            energy: 100,
            integrity: 100,
            bpm: 60,
            stress: 0,
            loneliness: 0,
            curiosity: 50,
            stability: 100,
            mood: 0,
            session_seconds: 0,
            boot_count: 0,
            last_interaction: 0,
            name_len: 0,
            memory_count: 0,
            pad: [0u8; 2],
            entity_name: [0u8; NAME_CAP],
            personality: Personality::initial(),
            memories: [Memory::empty(); MEMORY_CAP],
        };
        assert(d@.pad =~= SaveDataView::initial().pad);
        assert(d@.entity_name =~= SaveDataView::initial().entity_name);
        assert(d@.memories =~= SaveDataView::initial().memories);
        d
    }

    fn word(&self, k: usize) -> (w: u32)
        requires
            k < 15,
        ensures
            w == self@.word(k as int),
    {
        if k == 0 {
            self.magic
        } else if k == 1 {
            self.version
        } else if k == 2 {
            self.checksum
        } else if k == 3 {
            self.sync_rate
        } else if k == 4 {
            self.energy
        } else if k == 5 {
            self.integrity
        } else if k == 6 {
            self.bpm
        } else if k == 7 {
            self.stress
        } else if k == 8 {
            self.loneliness
        } else if k == 9 {
            self.curiosity
        } else if k == 10 {
            self.stability
        } else if k == 11 {
            self.mood
        } else if k == 12 {
            self.session_seconds
        } else if k == 13 {
            self.boot_count
        } else {
            self.last_interaction
        }
    }

    fn byte(&self, i: usize) -> (b: u8)
        requires
            i < SAVE_SIZE,
        ensures
            b == self@.byte(i as int),
    {
        if i < COUNTS_AT {
            word_byte(self.word(i / 4), i % 4)
        } else if i == COUNTS_AT {
            self.name_len
        } else if i == COUNTS_AT + 1 {
            self.memory_count
        } else if i < NAME_AT {
            self.pad[i - COUNTS_AT - 2]
        } else if i < PERSONALITY_AT {
            self.entity_name[i - NAME_AT]
        } else if i == PERSONALITY_AT {
            self.personality.curiosity
        } else if i == PERSONALITY_AT + 1 {
            self.personality.attachment
        } else if i == PERSONALITY_AT + 2 {
            self.personality.aggression
        } else if i == PERSONALITY_AT + 3 {
            self.personality.optimism
        } else {
            let n: usize = (i - MEMORIES_AT) / MEMORY_SIZE;
            let j: usize = (i - MEMORIES_AT) % MEMORY_SIZE;
            assert(n == (i - MEMORIES_AT) / 72 && j == (i - MEMORIES_AT) % 72);
            let m: Memory = self.memories[n];
            if j < 4 {
                word_byte(m.timestamp, j)
            } else if j == 4 {
                m.importance
            } else if j == 5 {
                m.kind
            } else if j == 6 {
                m.len
            } else if j == 7 {
                m.pad
            } else {
                m.text[j - 8]
            }
        }
    }

    /// The image of this content.
    pub fn to_bytes(&self) -> (b: [u8; SAVE_SIZE])
        ensures
            b@ == self@.image(),
    {
        let mut b = [0u8; SAVE_SIZE];
        let mut i: usize = 0;
        while i < SAVE_SIZE
            invariant
                i <= SAVE_SIZE,
                forall|k: int| 0 <= k < i ==> b@[k] == self@.byte(k),
            decreases SAVE_SIZE - i,
        {
            b[i] = self.byte(i);
            i = i + 1;
        }
        assert(b@ =~= self@.image());
        b
    }

    /// The content of an image.
    pub fn from_bytes(b: &[u8; SAVE_SIZE]) -> (d: SaveData)
        ensures
            d@ == SaveDataView::parsed(b@),
    {
        let mut entity_name = [0u8; NAME_CAP];
        let mut i: usize = 0;
        while i < NAME_CAP
            invariant
                i <= NAME_CAP,
                forall|k: int| 0 <= k < i ==> entity_name@[k] == b@[NAME_AT + k],
            decreases NAME_CAP - i,
        {
            entity_name[i] = b[NAME_AT + i];
            i = i + 1;
        }
        let mut memories = [Memory::empty(); MEMORY_CAP];
        let mut n: usize = 0;
        while n < MEMORY_CAP
            invariant
                n <= MEMORY_CAP,
                forall|k: int|
                    0 <= k < n ==> (#[trigger] memories@[k])@ == memory_at(
                        b@,
                        MEMORIES_AT + k * MEMORY_SIZE,
                    ),
            decreases MEMORY_CAP - n,
        {
            memories[n] = read_memory(b, MEMORIES_AT + n * MEMORY_SIZE);
            n = n + 1;
        }
        let d = SaveData {
            magic: read_word(b, 0),
            version: read_word(b, 4),
            checksum: read_word(b, 8),
            sync_rate: read_word(b, 12),
            energy: read_word(b, 16),
            integrity: read_word(b, 20),
            bpm: read_word(b, 24),
            stress: read_word(b, 28),
            loneliness: read_word(b, 32),
            curiosity: read_word(b, 36),
            stability: read_word(b, 40),
            mood: read_word(b, 44),
            session_seconds: read_word(b, 48),
            boot_count: read_word(b, 52),
            last_interaction: read_word(b, 56),
            name_len: b[60],
            memory_count: b[61],
            pad: [b[62], b[63]],
            entity_name,
            personality: Personality {
                curiosity: b[96],
                attachment: b[97],
                aggression: b[98],
                optimism: b[99],
            },
            memories,
        };
        proof {
            let p = SaveDataView::parsed(b@);
            assert(d@.pad =~= p.pad);
            assert(d@.entity_name =~= p.entity_name);
            assert(d@.memories =~= p.memories);
        }
        d
    }
}

/// A word is found again in its bytes.
proof fn lemma_word_of_bytes(w: u32, b: Seq<u8>, at: int)
    requires
        b[at] == le_byte(w, 0),
        b[at + 1] == le_byte(w, 1),
        b[at + 2] == le_byte(w, 2),
        b[at + 3] == le_byte(w, 3),
    ensures
        le_word(b, at) == w,
{
}

/// Four bytes are the bytes of the word that they make.
pub proof fn lemma_bytes_of_word(b: Seq<u8>, at: int)
    ensures
        le_byte(le_word(b, at), 0) == b[at],
        le_byte(le_word(b, at), 1) == b[at + 1],
        le_byte(le_word(b, at), 2) == b[at + 2],
        le_byte(le_word(b, at), 3) == b[at + 3],
{
    let (b0, b1, b2, b3) = (b[at] as int, b[at + 1] as int, b[at + 2] as int, b[at + 3] as int);
    let w = le_word(b, at) as int;
    lemma_four_digits(w, b0, b1, b2, b3);
}

proof fn lemma_four_digits(w: int, b0: int, b1: int, b2: int, b3: int)
    requires
        0 <= b0 < 256,
        0 <= b1 < 256,
        0 <= b2 < 256,
        0 <= b3 < 256,
        w == b0 + b1 * 256 + b2 * 65536 + b3 * 16777216,
    ensures
        w % 256 == b0,
        w / 256 % 256 == b1,
        w / 65536 % 256 == b2,
        w / 16777216 == b3,
{
    let q1 = b1 + b2 * 256 + b3 * 65536;
    let q2 = b2 + b3 * 256;
    assert(w == b0 + 256 * q1);
    assert(w / 256 == q1);
    assert(q1 == b1 + 256 * q2);
    assert(w == (b0 + 256 * b1) + 65536 * q2);
    assert(w / 65536 == q2);
}

proof fn lemma_word_in_image(d: SaveDataView, k: int)
    requires
        0 <= k < 15,
    ensures
        le_word(d.image(), 4 * k) == d.word(k),
{
    lemma_word_of_bytes(d.word(k), d.image(), 4 * k);
}

proof fn lemma_memory_in_image(d: SaveDataView, i: int)
    requires
        d.wf(),
        0 <= i < MEMORY_CAP,
    ensures
        memory_at(d.image(), MEMORIES_AT + i * MEMORY_SIZE) == d.memories[i],
{
    let b = d.image();
    let at = MEMORIES_AT + i * MEMORY_SIZE;
    let m = d.memories[i];
    assert forall|j: int| 0 <= j < MEMORY_SIZE implies #[trigger] b[at + j] == memory_byte(m, j) by {
        assert((at + j - MEMORIES_AT) / 72 == i);
        assert((at + j - MEMORIES_AT) % 72 == j);
    }
    assert(b[at + 0] == memory_byte(m, 0));
    lemma_word_of_bytes(m.timestamp, b, at);
    assert(memory_at(b, at).text =~= m.text);
}

/// What is written into an image is read back from it.
pub proof fn law_image_keeps_content(d: SaveDataView)
    requires
        d.wf(),
    ensures
        SaveDataView::parsed(d.image()) == d,
{
    let b = d.image();
    let p = SaveDataView::parsed(b);
    lemma_word_in_image(d, 0);
    lemma_word_in_image(d, 1);
    lemma_word_in_image(d, 2);
    lemma_word_in_image(d, 3);
    lemma_word_in_image(d, 4);
    lemma_word_in_image(d, 5);
    lemma_word_in_image(d, 6);
    lemma_word_in_image(d, 7);
    lemma_word_in_image(d, 8);
    lemma_word_in_image(d, 9);
    lemma_word_in_image(d, 10);
    lemma_word_in_image(d, 11);
    lemma_word_in_image(d, 12);
    lemma_word_in_image(d, 13);
    lemma_word_in_image(d, 14);
    assert forall|i: int| 0 <= i < MEMORY_CAP implies p.memories[i] == d.memories[i] by {
        lemma_memory_in_image(d, i);
    }
    assert(p.memories =~= d.memories);
    assert(p.pad =~= d.pad);
    assert(p.entity_name =~= d.entity_name);
}

/// An image is the image of what it holds.
pub proof fn law_image_holds_no_more(b: Seq<u8>)
    requires
        b.len() == SAVE_SIZE,
    ensures
        SaveDataView::parsed(b).wf(),
        SaveDataView::parsed(b).image() == b,
{
    let d = SaveDataView::parsed(b);
    assert forall|i: int| 0 <= i < SAVE_SIZE implies d.byte(i) == b[i] by {
        if i < COUNTS_AT {
            let at = i / 4 * 4;
            lemma_bytes_of_word(b, at);
            assert(d.word(i / 4) == le_word(b, at));
        } else if i >= MEMORIES_AT {
            let n = (i - MEMORIES_AT) / 72;
            let j = (i - MEMORIES_AT) % 72;
            assert(i - MEMORIES_AT == n * 72 + j);
            lemma_bytes_of_word(b, MEMORIES_AT + n * MEMORY_SIZE);
        }
    }
    assert(d.image() =~= b);
}

/// The four bytes at `at` come to `w`, the lowest first.
pub open spec fn holds_word(b: Seq<u8>, at: int, w: u32) -> bool {
    b[at] + 256 * b[at + 1] + 65536 * b[at + 2] + 16777216 * b[at + 3] == w
}

proof fn lemma_holds_word(d: SaveDataView, k: int)
    requires
        0 <= k < 15,
    ensures
        holds_word(d.image(), 4 * k, d.word(k)),
{
    let b = d.image();
    let w = d.word(k);
    assert(b[4 * k] == le_byte(w, 0));
    assert(b[4 * k + 1] == le_byte(w, 1));
    assert(b[4 * k + 2] == le_byte(w, 2));
    assert(b[4 * k + 3] == le_byte(w, 3));
}

/// Where everything stands in an image, byte for byte.
pub proof fn law_image_layout(d: SaveDataView)
    requires
        d.wf(),
    ensures
        ({
            let b = d.image();
            &&& b.len() == 2404
            &&& holds_word(b, 0, d.magic)
            &&& holds_word(b, 4, d.version)
            &&& holds_word(b, 8, d.checksum)
            &&& holds_word(b, 12, d.sync_rate)
            &&& holds_word(b, 16, d.energy)
            &&& holds_word(b, 20, d.integrity)
            &&& holds_word(b, 24, d.bpm)
            &&& holds_word(b, 28, d.stress)
            &&& holds_word(b, 32, d.loneliness)
            &&& holds_word(b, 36, d.curiosity)
            &&& holds_word(b, 40, d.stability)
            &&& holds_word(b, 44, d.mood)
            &&& holds_word(b, 48, d.session_seconds)
            &&& holds_word(b, 52, d.boot_count)
            &&& holds_word(b, 56, d.last_interaction)
            &&& b[60] == d.name_len
            &&& b[61] == d.memory_count
            &&& b.subrange(62, 64) == d.pad
            &&& b.subrange(64, 96) == d.entity_name
            &&& b[96] == d.personality.curiosity
            &&& b[97] == d.personality.attachment
            &&& b[98] == d.personality.aggression
            &&& b[99] == d.personality.optimism
        }),
{
    lemma_holds_word(d, 0);
    lemma_holds_word(d, 1);
    lemma_holds_word(d, 2);
    lemma_holds_word(d, 3);
    lemma_holds_word(d, 4);
    lemma_holds_word(d, 5);
    lemma_holds_word(d, 6);
    lemma_holds_word(d, 7);
    lemma_holds_word(d, 8);
    lemma_holds_word(d, 9);
    lemma_holds_word(d, 10);
    lemma_holds_word(d, 11);
    lemma_holds_word(d, 12);
    lemma_holds_word(d, 13);
    lemma_holds_word(d, 14);
    assert(d.image().subrange(62, 64) =~= d.pad);
    assert(d.image().subrange(64, 96) =~= d.entity_name);
}

/// Where each memory stands in an image: 72 bytes, of which the first four are
/// its second, the next four its importance, kind, length and padding, and the
/// rest its text.
pub proof fn law_memory_layout(d: SaveDataView, i: int)
    requires
        d.wf(),
        0 <= i < 32,
    ensures
        ({
            let b = d.image();
            let at = 100 + 72 * i;
            let m = d.memories[i];
            &&& holds_word(b, at, m.timestamp)
            &&& b[at + 4] == m.importance
            &&& b[at + 5] == m.kind
            &&& b[at + 6] == m.len
            &&& b[at + 7] == m.pad
            &&& b.subrange(at + 8, at + 72) == m.text
        }),
{
    let b = d.image();
    let at = 100 + 72 * i;
    let m = d.memories[i];
    assert forall|j: int| 0 <= j < 72 implies #[trigger] b[at + j] == memory_byte(m, j) by {
        assert((at + j - MEMORIES_AT) / 72 == i);
        assert((at + j - MEMORIES_AT) % 72 == j);
    }
    assert(b[at + 0] == memory_byte(m, 0));
    assert(b[at + 1] == memory_byte(m, 1));
    assert(b[at + 2] == memory_byte(m, 2));
    assert(b[at + 3] == memory_byte(m, 3));
    assert(b.subrange(at + 8, at + 72) =~= m.text);
}

} // verus!
