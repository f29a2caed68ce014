//! What the entity remembers.

use vstd::prelude::*;
use vstd::string::StringSliceAdditionalSpecFns;
use vstd::utf8::encode_utf8;

use crate::text::clipped;

verus! {

pub const MEMORY_CAP: usize = 32;

pub const MEMORY_TEXT_CAP: usize = 64;

#[derive(Copy, Clone, PartialEq, Eq, Structural, Debug)]
pub enum MemoryKind {
    UserInteraction,
    InternalEvent,
    StressEvent,
    LearnedPattern,
    StateTransition,
}

impl MemoryKind {
    /// The number under which the kind is saved.
    pub open spec fn spec_code(self) -> u8 {
        match self {
            MemoryKind::UserInteraction => 0,
            MemoryKind::InternalEvent => 1,
            MemoryKind::StressEvent => 2,
            MemoryKind::LearnedPattern => 3,
            MemoryKind::StateTransition => 4,
        }
    }

    /// The kind that has the code `v`; a number that is no code stands for an
    /// interaction with the user.
    pub open spec fn of_code(v: u8) -> MemoryKind {
        match v {
            1 => MemoryKind::InternalEvent,
            2 => MemoryKind::StressEvent,
            3 => MemoryKind::LearnedPattern,
            4 => MemoryKind::StateTransition,
            _ => MemoryKind::UserInteraction,
        }
    }

    /// What the kind is called on the screen.
    pub open spec fn name(self) -> Seq<char> {
        match self {
            MemoryKind::UserInteraction => "USER"@,
            MemoryKind::InternalEvent => "INTL"@,
            MemoryKind::StressEvent => "STRSS"@,
            MemoryKind::LearnedPattern => "LEARN"@,
            MemoryKind::StateTransition => "TRANS"@,
        }
    }

    pub fn code(self) -> (v: u8)
        ensures
            v == self.spec_code(),
    {
        match self {
            MemoryKind::UserInteraction => 0,
            MemoryKind::InternalEvent => 1,
            MemoryKind::StressEvent => 2,
            MemoryKind::LearnedPattern => 3,
            MemoryKind::StateTransition => 4,
        }
    }

    pub fn from_u8(v: u8) -> (k: MemoryKind)
        ensures
            k == MemoryKind::of_code(v),
    {
        match v {
            1 => MemoryKind::InternalEvent,
            2 => MemoryKind::StressEvent,
            3 => MemoryKind::LearnedPattern,
            4 => MemoryKind::StateTransition,
            _ => MemoryKind::UserInteraction,
        }
    }

    pub fn label(self) -> (s: &'static str)
        ensures
            s@ == self.name(),
    {
        match self {
            MemoryKind::UserInteraction => "USER",
            MemoryKind::InternalEvent => "INTL",
            MemoryKind::StressEvent => "STRSS",
            MemoryKind::LearnedPattern => "LEARN",
            MemoryKind::StateTransition => "TRANS",
        }
    }
}

/// One memory: when it was made, how much it matters, its kind by code, and a
/// text of which `len` bytes count.
#[derive(Copy, Clone)]
pub struct Memory {
    pub timestamp: u32,
    pub importance: u8,
    pub kind: u8,
    pub len: u8,
    pub pad: u8,
    pub text: [u8; MEMORY_TEXT_CAP],
}

/// A memory with its text as a sequence of `MEMORY_TEXT_CAP` bytes.
#[verifier::ext_equal]
pub struct MemoryView {
    pub timestamp: u32,
    pub importance: u8,
    pub kind: u8,
    pub len: u8,
    pub pad: u8,
    pub text: Seq<u8>,
}

impl View for Memory {
    type V = MemoryView;

    open spec fn view(&self) -> MemoryView {
        MemoryView {
            timestamp: self.timestamp,
            importance: self.importance,
            kind: self.kind,
            len: self.len,
            pad: self.pad,
            text: self.text@,
        }
    }
}

impl MemoryView {
    /// A slot that holds no memory.
    pub open spec fn empty() -> MemoryView {
        MemoryView {
            timestamp: 0,
            importance: 0,
            kind: 0,
            len: 0,
            pad: 0,
            text: Seq::new(MEMORY_TEXT_CAP as nat, |i: int| 0u8),
        }
    }

    /// The memory of `text`, of which the first `MEMORY_TEXT_CAP` bytes are
    /// kept.
    pub open spec fn recorded(
        timestamp: u32,
        text: Seq<char>,
        kind: MemoryKind,
        importance: u8,
    ) -> MemoryView {
        let kept = clipped(encode_utf8(text), MEMORY_TEXT_CAP as nat);
        MemoryView {
            timestamp,
            importance,
            kind: kind.spec_code(),
            len: kept.len() as u8,
            pad: 0,
            text: Seq::new(
                MEMORY_TEXT_CAP as nat,
                |i: int| if i < kept.len() { kept[i] } else { 0u8 },
            ),
        }
    }

    /// The text is not said to be longer than what is there.
    pub open spec fn readable(self) -> bool {
        self.len <= MEMORY_TEXT_CAP
    }

    /// The bytes of the text that count.
    pub open spec fn content(self) -> Seq<u8> {
        self.text.take(self.len as int)
    }
}

impl Memory {
    pub fn empty() -> (m: Memory)
        ensures
            m@ == MemoryView::empty(),
    {
        let m = Memory {
            timestamp: 0,
            importance: 0,
            kind: 0,
            len: 0,
            pad: 0,
            text: [0u8; MEMORY_TEXT_CAP],
        };
        assert(m@.text =~= MemoryView::empty().text);
        m
    }

    pub fn record(timestamp: u32, text: &str, kind: MemoryKind, importance: u8) -> (m: Memory)
        ensures
            m@ == MemoryView::recorded(timestamp, text@, kind, importance),
    {
        let bytes: &[u8] = text.as_bytes();
        let len: usize = if bytes.len() < MEMORY_TEXT_CAP { bytes.len() } else { MEMORY_TEXT_CAP };
        let mut kept = [0u8; MEMORY_TEXT_CAP];
        let mut i: usize = 0;
        while i < len
            invariant
                i <= len <= MEMORY_TEXT_CAP,
                len <= bytes@.len(),
                forall|j: int| 0 <= j < i ==> kept@[j] == bytes@[j],
                forall|j: int| i <= j < MEMORY_TEXT_CAP ==> kept@[j] == 0,
            decreases len - i,
        {
            kept[i] = bytes[i];
            i = i + 1;
        }
        let m = Memory {
            timestamp,
            importance,
            kind: kind.code(),
            len: len as u8,
            pad: 0,
            text: kept,
        };
        assert(m@.text =~= MemoryView::recorded(timestamp, text@, kind, importance).text);
        m
    }
}

/// What is remembered of `log` once `m` came to it: the newest `MEMORY_CAP`
/// memories, in the order in which they were made.
pub open spec fn remembered(log: Seq<MemoryView>, m: MemoryView) -> Seq<MemoryView> {
    let all = log.push(m);
    if all.len() > MEMORY_CAP {
        all.skip(all.len() - MEMORY_CAP)
    } else {
        all
    }
}

/// Up to `MEMORY_CAP` memories, the oldest first. Its view is those memories.
pub struct MemoryLog {
    slots: [Memory; MEMORY_CAP],
    count: usize,
}

impl View for MemoryLog {
    type V = Seq<MemoryView>;

    closed spec fn view(&self) -> Seq<MemoryView> {
        Seq::new(self.count as nat, |i: int| self.slots@[i]@)
    }
}

impl MemoryLog {
    pub closed spec fn wf(&self) -> bool {
        self.count <= MEMORY_CAP
    }

    pub fn new() -> (log: MemoryLog)
        ensures
            log.wf(),
            log@ == Seq::<MemoryView>::empty(),
    {
        MemoryLog { slots: [Memory::empty(); MEMORY_CAP], count: 0 }
    }

    /// The log of the first `count` of these memories.
    pub fn from_slots(slots: &[Memory; MEMORY_CAP], count: usize) -> (log: MemoryLog)
        requires
            count <= MEMORY_CAP,
        ensures
            log.wf(),
            log@ == Seq::new(count as nat, |i: int| slots@[i]@),
    {
        let mut log = MemoryLog::new();
        let mut i: usize = 0;
        while i < count
            invariant
                i <= count <= MEMORY_CAP,
                forall|j: int| 0 <= j < i ==> log.slots@[j] == slots@[j],
            decreases count - i,
        {
            log.slots[i] = slots[i];
            i = i + 1;
        }
        log.count = count;
        assert(log@ =~= Seq::new(count as nat, |i: int| slots@[i]@));
        log
    }

    pub fn len(&self) -> (n: usize)
        requires
            self.wf(),
        ensures
            n == self@.len(),
    {
        self.count
    }

    pub fn get(&self, i: usize) -> (m: Memory)
        requires
            self.wf(),
            i < self@.len(),
        ensures
            m@ == self@[i as int],
    {
        self.slots[i]
    }

    /// Adds a memory; a full log forgets its oldest one.
    pub fn push(&mut self, m: Memory)
        requires
            old(self).wf(),
        ensures
            final(self).wf(),
            final(self)@ == remembered(old(self)@, m@),
    {
        let ghost before = self@;
        if self.count >= MEMORY_CAP {
            let mut i: usize = 1;
            while i < MEMORY_CAP
                invariant
                    1 <= i <= MEMORY_CAP,
                    self.count == MEMORY_CAP,
                    before.len() == MEMORY_CAP,
                    forall|j: int| 0 <= j < i - 1 ==> (#[trigger] self.slots@[j])@ == before[j + 1],
                    forall|j: int| i <= j < MEMORY_CAP ==> (#[trigger] self.slots@[j])@ == before[j],
                decreases MEMORY_CAP - i,
            {
                self.slots[i - 1] = self.slots[i];
                i = i + 1;
            }
            self.count = MEMORY_CAP - 1;
        }
        let at: usize = self.count;
        self.slots[at] = m;
        self.count = at + 1;
        assert(self@ =~= remembered(before, m@));
    }
}

/// Every kind is found again by its code.
pub proof fn law_memory_kind_codes(k: MemoryKind)
    ensures
        MemoryKind::of_code(k.spec_code()) == k,
{
}

/// A log never holds more than its capacity, ends with the newest memory, and
/// forgets only when it is full, and then only its oldest memory.
pub proof fn law_oldest_memory_goes_first(log: Seq<MemoryView>, m: MemoryView)
    requires
        log.len() <= MEMORY_CAP,
    ensures
        remembered(log, m).len() <= MEMORY_CAP,
        remembered(log, m).last() == m,
        log.len() < MEMORY_CAP ==> remembered(log, m) == log.push(m),
        log.len() == MEMORY_CAP ==> remembered(log, m) == log.drop_first().push(m),
{
    if log.len() == MEMORY_CAP {
        assert(remembered(log, m) =~= log.drop_first().push(m));
    }
}

/// A memory that the entity makes can be read, and its text is what it was
/// given, cut to the capacity of a memory.
pub proof fn law_recorded_memory_is_readable(
    timestamp: u32,
    text: Seq<char>,
    kind: MemoryKind,
    importance: u8,
)
    ensures
        ({
            let m = MemoryView::recorded(timestamp, text, kind, importance);
            &&& m.readable()
            &&& m.text.len() == MEMORY_TEXT_CAP
            &&& m.content() == clipped(encode_utf8(text), MEMORY_TEXT_CAP as nat)
        }),
{
    let m = MemoryView::recorded(timestamp, text, kind, importance);
    assert(m.content() =~= clipped(encode_utf8(text), MEMORY_TEXT_CAP as nat));
}

/// A number that is the code of no kind stands for an interaction with the
/// user.
pub proof fn law_other_kinds_are_interactions(v: u8)
    ensures
        MemoryKind::of_code(v) == MemoryKind::UserInteraction <==> v == 0 || v > 4,
        v <= 4 ==> MemoryKind::of_code(v).spec_code() == v,
{
}

/// `after` is the log `before` and one memory more: made at `at`, of `text`, of
/// which the first 64 bytes are kept and zeroes fill what they leave free. A log
/// that held 32 memories has lost its first one.
pub open spec fn gained(
    before: Seq<MemoryView>,
    after: Seq<MemoryView>,
    at: u32,
    text: Seq<char>,
    kind: MemoryKind,
    importance: u8,
) -> bool {
    let bytes = encode_utf8(text);
    let m = after.last();
    &&& after.len() == (if before.len() < 32 { before.len() + 1 } else { 32 })
    &&& forall|i: int|
        0 <= i < after.len() - 1 ==> #[trigger] after[i] == before[i + before.len() + 1
            - after.len()]
    &&& m.timestamp == at
    &&& m.kind == kind.spec_code()
    &&& m.importance == importance
    &&& m.pad == 0
    &&& m.text.len() == 64
    &&& m.len == (if bytes.len() < 64 { bytes.len() as int } else { 64 })
    &&& forall|j: int|
        0 <= j < 64 ==> #[trigger] m.text[j] == (if j < bytes.len() { bytes[j] } else { 0u8 })
}

/// What is recorded comes to the end of the log, with the time, the kind and the
/// importance that it was given.
pub proof fn law_recording_adds_one_memory(
    log: Seq<MemoryView>,
    at: u32,
    text: Seq<char>,
    kind: MemoryKind,
    importance: u8,
)
    requires
        log.len() <= 32,
    ensures
        gained(
            log,
            remembered(log, MemoryView::recorded(at, text, kind, importance)),
            at,
            text,
            kind,
            importance,
        ),
{
}

/// A slot that holds no memory holds nothing but zeroes.
pub proof fn law_empty_slot(i: int)
    requires
        0 <= i < 64,
    ensures
        MemoryView::empty().timestamp == 0,
        MemoryView::empty().importance == 0,
        MemoryView::empty().kind == 0,
        MemoryView::empty().len == 0,
        MemoryView::empty().pad == 0,
        MemoryView::empty().text.len() == 64,
        MemoryView::empty().text[i] == 0,
{
}

} // verus!
