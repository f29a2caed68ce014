//! What the user sees.

use vstd::prelude::*;
use vstd::string::StringSliceAdditionalSpecFns;
use vstd::utf8::{encode_utf8, encode_utf8_valid_utf8, valid_utf8};

use crate::decimal::{decimal, law_decimal_writes, u32_to_ascii, writes};
use crate::entity::{Tasy, TasyView};
use crate::memory::{Memory, MemoryKind, MemoryView, MEMORY_TEXT_CAP};
use crate::text::str_from_utf8;

verus! {

/// Number of memories that are shown unless all were asked for.
pub const RECENT: usize = 8;

/// A label, a number and what follows it.
pub open spec fn stat_line(label: Seq<char>, value: u32, suffix: Seq<char>) -> Seq<u8> {
    encode_utf8(label) + decimal(value as nat) + encode_utf8(suffix)
}

/// Bytes as they are shown: themselves if they are text, else `other`.
pub open spec fn shown_text(bytes: Seq<u8>, other: Seq<char>) -> Seq<u8> {
    if valid_utf8(bytes) {
        bytes
    } else {
        encode_utf8(other)
    }
}

pub open spec fn double_rule() -> Seq<u8> {
    encode_utf8("==================================================\r\n"@)
}

pub open spec fn single_rule() -> Seq<u8> {
    encode_utf8("--------------------------------------------------\r\n"@)
}

/// One memory on a line: when, of which kind, how important, and what.
pub open spec fn memory_line(m: MemoryView) -> Seq<u8> {
    encode_utf8("  ["@) + decimal(m.timestamp as nat) + encode_utf8("s|"@) + encode_utf8(
        MemoryKind::of_code(m.kind).name(),
    ) + encode_utf8("|"@) + decimal(m.importance as nat) + encode_utf8("] "@) + shown_text(
        m.content(),
        "?"@,
    ) + encode_utf8("\r\n"@)
}

/// The lines of memories, in their order. A memory without text has no line.
pub open spec fn memory_lines(log: Seq<MemoryView>) -> Seq<u8>
    decreases log.len(),
{
    if log.len() == 0 {
        Seq::empty()
    } else if log.last().len == 0 {
        memory_lines(log.drop_last())
    } else {
        memory_lines(log.drop_last()) + memory_line(log.last())
    }
}

impl TasyView {
    pub open spec fn screen_header(self) -> Seq<u8> {
        encode_utf8("\x1B[2J\x1B[H"@) + double_rule() + (if self.sleeping {
            encode_utf8("           [ TASY v2 - DORMANT              ]    \r\n"@)
        } else {
            encode_utf8("           [ TASY v2 - AUTONOMOUS CORE      ]    \r\n"@)
        }) + double_rule()
    }

    pub open spec fn screen_identity(self) -> Seq<u8> {
        encode_utf8("  Entity   : "@) + shown_text(self.name, "TASY"@) + encode_utf8("\r\n"@)
            + encode_utf8("  Mood     : "@) + encode_utf8(self.mood.name()) + encode_utf8("\r\n"@)
            + single_rule()
    }

    pub open spec fn screen_body(self) -> Seq<u8> {
        stat_line("  Sync     : "@, self.sync_rate, " %\r\n"@) + stat_line(
            "  Energy   : "@,
            self.energy,
            " %\r\n"@,
        ) + stat_line("  Integrity: "@, self.integrity, " %\r\n"@) + single_rule()
    }

    pub open spec fn screen_feelings(self) -> Seq<u8> {
        stat_line("  Stress   : "@, self.stress, "\r\n"@) + stat_line(
            "  Loneliness: "@,
            self.loneliness,
            "\r\n"@,
        ) + stat_line("  Curiosity : "@, self.curiosity, "\r\n"@) + stat_line(
            "  Stability : "@,
            self.stability,
            "\r\n"@,
        ) + single_rule()
    }

    pub open spec fn screen_system(self) -> Seq<u8> {
        stat_line("  BPM      : "@, self.bpm, "\r\n"@) + stat_line(
            "  Boot #   : "@,
            self.boot_count,
            "\r\n"@,
        ) + stat_line("  Session  : "@, self.session_seconds, " s\r\n"@) + double_rule()
    }

    /// The memories that are shown: all if they were asked for, else the
    /// newest.
    pub open spec fn shown_memories(self) -> Seq<MemoryView> {
        if self.show_all_memories || self.memories.len() <= RECENT {
            self.memories
        } else {
            self.memories.skip(self.memories.len() - RECENT)
        }
    }

    /// Every memory that is shown can be read.
    pub open spec fn presentable(self) -> bool {
        forall|i: int|
            0 <= i < self.shown_memories().len() ==> (
            #[trigger] self.shown_memories()[i]).readable()
    }

    pub open spec fn screen_memories(self) -> Seq<u8> {
        (if self.show_all_memories {
            encode_utf8("  [ All Memories ]\r\n"@)
        } else {
            encode_utf8("  [ Recent Memory ]\r\n"@)
        }) + memory_lines(self.shown_memories())
    }

    pub open spec fn screen_footer() -> Seq<u8> {
        double_rule() + encode_utf8("  name  msg  status  memories  heal  boost\r\n"@)
            + encode_utf8("  sleep  wake  exit\r\n"@)
    }

    /// The whole screen.
    pub open spec fn screen(self) -> Seq<u8> {
        self.screen_header() + self.screen_identity() + self.screen_body() + self.screen_feelings()
            + self.screen_system() + self.screen_memories() + TasyView::screen_footer()
    }
}

fn put_bytes(out: &mut Vec<u8>, bytes: &[u8])
    ensures
        final(out)@ == old(out)@ + bytes@,
{
    let ghost before = out@;
    out.extend_from_slice(bytes);
    assert(out@ =~= before + bytes@);
}

fn put(out: &mut Vec<u8>, text: &str)
    ensures
        final(out)@ == old(out)@ + encode_utf8(text@),
{
    put_bytes(out, text.as_bytes());
}

/// Writes a number in decimal.
fn write_u32(out: &mut Vec<u8>, v: u32)
    ensures
        final(out)@ == old(out)@ + decimal(v as nat),
{
    let mut buf = [0u8; 10];
    let s: &[u8] = u32_to_ascii(v, &mut buf);
    put_bytes(out, s);
}

fn put_stat(out: &mut Vec<u8>, label: &str, v: u32, suffix: &str)
    ensures
        final(out)@ == old(out)@ + stat_line(label@, v, suffix@),
{
    let ghost before = out@;
    put(out, label);
    write_u32(out, v);
    put(out, suffix);
    assert(out@ =~= before + stat_line(label@, v, suffix@));
}

fn put_text_or(out: &mut Vec<u8>, bytes: &[u8], other: &str)
    ensures
        final(out)@ == old(out)@ + shown_text(bytes@, other@),
{
    match str_from_utf8(bytes) {
        Some(s) => {
            put(out, s);
        },
        None => {
            put(out, other);
        },
    }
}

fn put_memory(out: &mut Vec<u8>, m: &Memory)
    requires
        m@.readable(),
    ensures
        final(out)@ == old(out)@ + memory_line(m@),
{
    let ghost before = out@;
    put(out, "  [");
    write_u32(out, m.timestamp);
    put(out, "s|");
    put(out, MemoryKind::from_u8(m.kind).label());
    put(out, "|");
    write_u32(out, m.importance as u32);
    put(out, "] ");
    put_text_or(out, vstd::slice::slice_subrange(m.text.as_slice(), 0, m.len as usize), "?");
    put(out, "\r\n");
    assert(out@ =~= before + memory_line(m@));
}

impl Tasy {
    fn put_header(&self, out: &mut Vec<u8>)
        ensures
            final(out)@ == old(out)@ + self@.screen_header(),
    {
        let ghost before = out@;
        put(out, "\x1B[2J\x1B[H");
        put(out, "==================================================\r\n");
        if self.sleeping {
            put(out, "           [ TASY v2 - DORMANT              ]    \r\n");
        } else {
            put(out, "           [ TASY v2 - AUTONOMOUS CORE      ]    \r\n");
        }
        put(out, "==================================================\r\n");
        assert(out@ =~= before + self@.screen_header());
    }

    fn put_identity(&self, out: &mut Vec<u8>)
        requires
            self.wf(),
        ensures
            final(out)@ == old(out)@ + self@.screen_identity(),
    {
        let ghost before = out@;
        put(out, "  Entity   : ");
        put_text_or(out, self.name.as_bytes(), "TASY");
        put(out, "\r\n");
        put(out, "  Mood     : ");
        put(out, self.mood.label());
        put(out, "\r\n");
        put(out, "--------------------------------------------------\r\n");
        assert(out@ =~= before + self@.screen_identity());
    }

    fn put_body(&self, out: &mut Vec<u8>)
        ensures
            final(out)@ == old(out)@ + self@.screen_body(),
    {
        let ghost before = out@;
        put_stat(out, "  Sync     : ", self.sync_rate, " %\r\n");
        put_stat(out, "  Energy   : ", self.energy, " %\r\n");
        put_stat(out, "  Integrity: ", self.integrity, " %\r\n");
        put(out, "--------------------------------------------------\r\n");
        assert(out@ =~= before + self@.screen_body());
    }

    fn put_feelings(&self, out: &mut Vec<u8>)
        ensures
            final(out)@ == old(out)@ + self@.screen_feelings(),
    {
        let ghost before = out@;
        put_stat(out, "  Stress   : ", self.stress, "\r\n");
        put_stat(out, "  Loneliness: ", self.loneliness, "\r\n");
        put_stat(out, "  Curiosity : ", self.curiosity, "\r\n");
        put_stat(out, "  Stability : ", self.stability, "\r\n");
        put(out, "--------------------------------------------------\r\n");
        assert(out@ =~= before + self@.screen_feelings());
    }

    fn put_system(&self, out: &mut Vec<u8>)
        ensures
            final(out)@ == old(out)@ + self@.screen_system(),
    {
        let ghost before = out@;
        put_stat(out, "  BPM      : ", self.bpm, "\r\n");
        put_stat(out, "  Boot #   : ", self.boot_count, "\r\n");
        put_stat(out, "  Session  : ", self.session_seconds, " s\r\n");
        put(out, "==================================================\r\n");
        assert(out@ =~= before + self@.screen_system());
    }

    /// The place of the first memory that is shown.
    fn first_shown(&self) -> (start: usize)
        requires
            self.wf(),
        ensures
            start <= self@.memories.len(),
            self@.shown_memories() == self@.memories.skip(start as int),
    {
        let count: usize = self.memories.len();
        let start: usize = if !self.show_all_memories && count > RECENT {
            count - RECENT
        } else {
            0
        };
        assert(self@.memories.skip(0) =~= self@.memories);
        start
    }

    /// Whether every memory that is shown can be read.
    pub fn is_presentable(&self) -> (b: bool)
        requires
            self.wf(),
        ensures
            b == self@.presentable(),
    {
        let start: usize = self.first_shown();
        let count: usize = self.memories.len();
        let mut i: usize = start;
        while i < count
            invariant
                self.wf(),
                start <= i <= count,
                count == self@.memories.len(),
                self@.shown_memories() == self@.memories.skip(start as int),
                forall|k: int|
                    0 <= k < i - start ==> (#[trigger] self@.shown_memories()[k]).readable(),
            decreases count - i,
        {
            let m: Memory = self.memories.get(i);
            assert(m@ == self@.shown_memories()[i - start]);
            if m.len as usize > MEMORY_TEXT_CAP {
                return false;
            }
            i = i + 1;
        }
        true
    }

    fn put_memories(&self, out: &mut Vec<u8>)
        requires
            self.wf(),
            self@.presentable(),
        ensures
            final(out)@ == old(out)@ + self@.screen_memories(),
    {
        let ghost before = out@;
        if self.show_all_memories {
            put(out, "  [ All Memories ]\r\n");
        } else {
            put(out, "  [ Recent Memory ]\r\n");
        }
        let ghost titled = out@;
        let ghost shown = self@.shown_memories();
        let start: usize = self.first_shown();
        let count: usize = self.memories.len();
        let mut i: usize = start;
        assert(shown.take(0) =~= Seq::<MemoryView>::empty());
        while i < count
            invariant
                self.wf(),
                self@.presentable(),
                start <= i <= count,
                count == self@.memories.len(),
                shown == self@.shown_memories(),
                shown == self@.memories.skip(start as int),
                out@ == titled + memory_lines(shown.take(i - start)),
            decreases count - i,
        {
            let m: Memory = self.memories.get(i);
            proof {
                assert(m@ == shown[i - start]);
                assert(shown.take(i - start + 1).drop_last() =~= shown.take(i - start));
            }
            if m.len != 0 {
                put_memory(out, &m);
                assert(out@ =~= titled + (memory_lines(shown.take(i - start)) + memory_line(m@)));
            }
            i = i + 1;
        }
        assert(shown.take(count - start) =~= shown);
        assert(out@ =~= before + self@.screen_memories());
    }

    /// The screen, as bytes for the user's terminal. Once it is drawn with all
    /// memories, it goes back to the newest ones.
    pub fn render_ui(&mut self) -> (out: Vec<u8>)
        requires
            old(self).wf(),
            old(self)@.presentable(),
        ensures
            final(self).wf(),
            out@ == old(self)@.screen(),
            final(self)@ == (TasyView { show_all_memories: false, ..old(self)@ }),
    {
        let mut out: Vec<u8> = Vec::new();
        self.put_header(&mut out);
        self.put_identity(&mut out);
        self.put_body(&mut out);
        self.put_feelings(&mut out);
        self.put_system(&mut out);
        self.put_memories(&mut out);
        put(&mut out, "==================================================\r\n");
        put(&mut out, "  name  msg  status  memories  heal  boost\r\n");
        put(&mut out, "  sleep  wake  exit\r\n");
        assert(out@ =~= self@.screen());
        self.show_all_memories = false;
        out
    }
}

/// `line` is the label, the number `n` in decimal, and the suffix.
pub open spec fn reads(line: Seq<u8>, label: Seq<char>, n: u32, suffix: Seq<char>) -> bool {
    let (front, back) = (encode_utf8(label), encode_utf8(suffix));
    let digits = line.subrange(front.len() as int, line.len() - back.len());
    &&& line.len() > front.len() + back.len()
    &&& line == front + digits + back
    &&& writes(digits, n as nat)
}

/// `line` is the label and the bytes, or the label and `other` where the bytes
/// are no text, and ends there.
pub open spec fn says(line: Seq<u8>, label: Seq<char>, bytes: Seq<u8>, other: Seq<char>) -> bool {
    &&& valid_utf8(bytes) ==> line == encode_utf8(label) + bytes + encode_utf8("\r\n"@)
    &&& !valid_utf8(bytes) ==> line == encode_utf8(label) + encode_utf8(other) + encode_utf8(
        "\r\n"@,
    )
}

proof fn lemma_stat_line_reads(label: Seq<char>, n: u32, suffix: Seq<char>)
    ensures
        reads(stat_line(label, n, suffix), label, n, suffix),
{
    let line = stat_line(label, n, suffix);
    let (front, back) = (encode_utf8(label), encode_utf8(suffix));
    law_decimal_writes(n as nat);
    assert(line.subrange(front.len() as int, line.len() - back.len()) =~= decimal(n as nat));
}

/// The screen from its top down: a title that tells whether the entity sleeps,
/// its name, its mood, its levels, its heart rate, starts and seconds, its
/// memories, and the commands. Each number stands behind its own label.
pub proof fn law_screen(s: TasyView) -> (lines: Seq<Seq<u8>>)
    ensures
        lines.len() == 12,
        says(lines[0], "  Entity   : "@, s.name, "TASY"@),
        says(lines[1], "  Mood     : "@, encode_utf8(s.mood.name()), ""@),
        reads(lines[2], "  Sync     : "@, s.sync_rate, " %\r\n"@),
        reads(lines[3], "  Energy   : "@, s.energy, " %\r\n"@),
        reads(lines[4], "  Integrity: "@, s.integrity, " %\r\n"@),
        reads(lines[5], "  Stress   : "@, s.stress, "\r\n"@),
        reads(lines[6], "  Loneliness: "@, s.loneliness, "\r\n"@),
        reads(lines[7], "  Curiosity : "@, s.curiosity, "\r\n"@),
        reads(lines[8], "  Stability : "@, s.stability, "\r\n"@),
        reads(lines[9], "  BPM      : "@, s.bpm, "\r\n"@),
        reads(lines[10], "  Boot #   : "@, s.boot_count, "\r\n"@),
        reads(lines[11], "  Session  : "@, s.session_seconds, " s\r\n"@),
        ({
            let double = encode_utf8("==================================================\r\n"@);
            let single = encode_utf8("--------------------------------------------------\r\n"@);
            let title = if s.sleeping {
                encode_utf8("           [ TASY v2 - DORMANT              ]    \r\n"@)
            } else {
                encode_utf8("           [ TASY v2 - AUTONOMOUS CORE      ]    \r\n"@)
            };
            let heading = if s.show_all_memories {
                encode_utf8("  [ All Memories ]\r\n"@)
            } else {
                encode_utf8("  [ Recent Memory ]\r\n"@)
            };
            let head = encode_utf8("\x1B[2J\x1B[H"@) + double + title + double;
            let who = lines[0] + lines[1] + single;
            let body = lines[2] + lines[3] + lines[4] + single;
            let feelings = lines[5] + lines[6] + lines[7] + lines[8] + single;
            let system = lines[9] + lines[10] + lines[11] + double;
            let memories = heading + memory_lines(s.shown_memories());
            let foot = double + encode_utf8("  name  msg  status  memories  heal  boost\r\n"@)
                + encode_utf8("  sleep  wake  exit\r\n"@);
            s.screen() == head + who + body + feelings + system + memories + foot
        }),
{
    let single = encode_utf8("--------------------------------------------------\r\n"@);
    let double = encode_utf8("==================================================\r\n"@);
    lemma_stat_line_reads("  Sync     : "@, s.sync_rate, " %\r\n"@);
    lemma_stat_line_reads("  Energy   : "@, s.energy, " %\r\n"@);
    lemma_stat_line_reads("  Integrity: "@, s.integrity, " %\r\n"@);
    lemma_stat_line_reads("  Stress   : "@, s.stress, "\r\n"@);
    lemma_stat_line_reads("  Loneliness: "@, s.loneliness, "\r\n"@);
    lemma_stat_line_reads("  Curiosity : "@, s.curiosity, "\r\n"@);
    lemma_stat_line_reads("  Stability : "@, s.stability, "\r\n"@);
    lemma_stat_line_reads("  BPM      : "@, s.bpm, "\r\n"@);
    lemma_stat_line_reads("  Boot #   : "@, s.boot_count, "\r\n"@);
    lemma_stat_line_reads("  Session  : "@, s.session_seconds, " s\r\n"@);
    encode_utf8_valid_utf8(s.mood.name());
    let entity = encode_utf8("  Entity   : "@) + shown_text(s.name, "TASY"@) + encode_utf8(
        "\r\n"@,
    );
    let mood = encode_utf8("  Mood     : "@) + encode_utf8(s.mood.name()) + encode_utf8("\r\n"@);
    let lines = seq![
        entity,
        mood,
        stat_line("  Sync     : "@, s.sync_rate, " %\r\n"@),
        stat_line("  Energy   : "@, s.energy, " %\r\n"@),
        stat_line("  Integrity: "@, s.integrity, " %\r\n"@),
        stat_line("  Stress   : "@, s.stress, "\r\n"@),
        stat_line("  Loneliness: "@, s.loneliness, "\r\n"@),
        stat_line("  Curiosity : "@, s.curiosity, "\r\n"@),
        stat_line("  Stability : "@, s.stability, "\r\n"@),
        stat_line("  BPM      : "@, s.bpm, "\r\n"@),
        stat_line("  Boot #   : "@, s.boot_count, "\r\n"@),
        stat_line("  Session  : "@, s.session_seconds, " s\r\n"@),
    ];
    assert(s.screen_identity() =~= lines[0] + lines[1] + single);
    assert(s.screen_body() =~= lines[2] + lines[3] + lines[4] + single);
    assert(s.screen_feelings() =~= lines[5] + lines[6] + lines[7] + lines[8] + single);
    assert(s.screen_system() =~= lines[9] + lines[10] + lines[11] + double);
    lines
}

/// `screen` is `above`, the label, the number `n` in decimal, and `below`.
pub open spec fn framed(
    screen: Seq<u8>,
    above: Seq<u8>,
    label: Seq<char>,
    n: u32,
    below: Seq<u8>,
) -> bool {
    screen == above + encode_utf8(label) + decimal(n as nat) + below
}

/// A line of a section stands between what comes before and after it.
proof fn lemma_line_within(
    above: Seq<u8>,
    before: Seq<u8>,
    label: Seq<u8>,
    digits: Seq<u8>,
    after: Seq<u8>,
    below: Seq<u8>,
)
    ensures
        above + (before + (label + digits) + after) + below == (above + before) + label + digits + (
        after + below),
{
    assert(above + (before + (label + digits) + after) + below =~= (above + before) + label
        + digits + (after + below));
}

/// What stands above the levels of the body.
#[verifier::opaque]
spec fn above_body(s: TasyView) -> Seq<u8> {
    s.screen_header() + s.screen_identity()
}

/// What stands below the levels of the body.
#[verifier::opaque]
spec fn below_body(s: TasyView) -> Seq<u8> {
    s.screen_feelings() + s.screen_system() + s.screen_memories() + TasyView::screen_footer()
}

proof fn lemma_body_within(s: TasyView)
    ensures
        s.screen() == above_body(s) + s.screen_body() + below_body(s),
{
    reveal(above_body);
    reveal(below_body);
    let (above, body) = (s.screen_header() + s.screen_identity(), s.screen_body());
    lemma_regrouped(
        above + body,
        s.screen_feelings(),
        s.screen_system(),
        s.screen_memories(),
        TasyView::screen_footer(),
    );
}

/// Energy and integrity show nowhere but in the body.
proof fn lemma_same_around_body(s: TasyView, t: TasyView)
    requires
        t == (TasyView { energy: t.energy, integrity: t.integrity, ..s }),
    ensures
        above_body(t) == above_body(s),
        below_body(t) == below_body(s),
{
    reveal(above_body);
    reveal(below_body);
}

proof fn lemma_framed(
    s: TasyView,
    before: Seq<u8>,
    label: Seq<char>,
    n: u32,
    after: Seq<u8>,
)
    requires
        s.screen_body() == before + (encode_utf8(label) + decimal(n as nat)) + after,
    ensures
        framed(s.screen(), above_body(s) + before, label, n, after + below_body(s)),
{
    lemma_body_within(s);
    lemma_line_within(
        above_body(s),
        before,
        encode_utf8(label),
        decimal(n as nat),
        after,
        below_body(s),
    );
}

proof fn lemma_energy_in_body(s: TasyView)
    ensures
        s.screen_body() == stat_line("  Sync     : "@, s.sync_rate, " %\r\n"@) + (encode_utf8(
            "  Energy   : "@,
        ) + decimal(s.energy as nat)) + (encode_utf8(" %\r\n"@) + stat_line(
            "  Integrity: "@,
            s.integrity,
            " %\r\n"@,
        ) + single_rule()),
{
}

proof fn lemma_integrity_in_body(s: TasyView)
    ensures
        s.screen_body() == (stat_line("  Sync     : "@, s.sync_rate, " %\r\n"@) + stat_line(
            "  Energy   : "@,
            s.energy,
            " %\r\n"@,
        )) + (encode_utf8("  Integrity: "@) + decimal(s.integrity as nat)) + (encode_utf8(
            " %\r\n"@,
        ) + single_rule()),
{
}

proof fn lemma_regrouped(a: Seq<u8>, b: Seq<u8>, c: Seq<u8>, d: Seq<u8>, e: Seq<u8>)
    ensures
        a + b + c + d + e == a + (b + c + d + e),
{
    assert(a + b + c + d + e =~= a + (b + c + d + e));
}

/// Energy shows on its own line alone: entities that differ in nothing else have
/// screens that differ in nothing but the digits behind that label.
pub proof fn law_energy_shows_on_its_line(s: TasyView, t: TasyView) -> (r: (Seq<u8>, Seq<u8>))
    requires
        t == (TasyView { energy: t.energy, ..s }),
    ensures
        framed(s.screen(), r.0, "  Energy   : "@, s.energy, r.1),
        framed(t.screen(), r.0, "  Energy   : "@, t.energy, r.1),
{
    let before = stat_line("  Sync     : "@, s.sync_rate, " %\r\n"@);
    let after = encode_utf8(" %\r\n"@) + stat_line("  Integrity: "@, s.integrity, " %\r\n"@)
        + single_rule();
    lemma_energy_in_body(s);
    lemma_energy_in_body(t);
    lemma_framed(s, before, "  Energy   : "@, s.energy, after);
    lemma_framed(t, before, "  Energy   : "@, t.energy, after);
    lemma_same_around_body(s, t);
    (above_body(s) + before, after + below_body(s))
}

/// Integrity shows on its own line alone.
pub proof fn law_integrity_shows_on_its_line(s: TasyView, t: TasyView) -> (r: (Seq<u8>, Seq<u8>))
    requires
        t == (TasyView { integrity: t.integrity, ..s }),
    ensures
        framed(s.screen(), r.0, "  Integrity: "@, s.integrity, r.1),
        framed(t.screen(), r.0, "  Integrity: "@, t.integrity, r.1),
{
    let before = stat_line("  Sync     : "@, s.sync_rate, " %\r\n"@) + stat_line(
        "  Energy   : "@,
        s.energy,
        " %\r\n"@,
    );
    let after = encode_utf8(" %\r\n"@) + single_rule();
    lemma_integrity_in_body(s);
    lemma_integrity_in_body(t);
    lemma_framed(s, before, "  Integrity: "@, s.integrity, after);
    lemma_framed(t, before, "  Integrity: "@, t.integrity, after);
    lemma_same_around_body(s, t);
    (above_body(s) + before, after + below_body(s))
}

/// One memory on a line: the second at which it was made, the label of its kind,
/// its importance, and the bytes of it that count, or a question mark where they
/// are no text.
pub proof fn law_memory_line(m: MemoryView) -> (r: (Seq<u8>, Seq<u8>))
    ensures
        writes(r.0, m.timestamp as nat),
        writes(r.1, m.importance as nat),
        ({
            let front = encode_utf8("  ["@) + r.0 + encode_utf8("s|"@) + encode_utf8(
                MemoryKind::of_code(m.kind).name(),
            ) + encode_utf8("|"@) + r.1 + encode_utf8("] "@);
            let text = m.text.take(m.len as int);
            let end = encode_utf8("\r\n"@);
            &&& valid_utf8(text) ==> memory_line(m) == front + text + end
            &&& !valid_utf8(text) ==> memory_line(m) == front + encode_utf8("?"@) + end
        }),
{
    law_decimal_writes(m.timestamp as nat);
    law_decimal_writes(m.importance as nat);
    (decimal(m.timestamp as nat), decimal(m.importance as nat))
}

/// Memories stand on lines of their own, one below the other in their order; a
/// memory without text has none.
pub proof fn law_memories_line_up(first: Seq<MemoryView>, then: Seq<MemoryView>, m: MemoryView)
    ensures
        memory_lines(first + then) == memory_lines(first) + memory_lines(then),
        memory_lines(Seq::<MemoryView>::empty()).len() == 0,
        m.len == 0 ==> memory_lines(seq![m]).len() == 0,
        m.len > 0 ==> memory_lines(seq![m]) == memory_line(m),
    decreases then.len(),
{
    let nothing = Seq::<MemoryView>::empty();
    assert(seq![m].drop_last() =~= nothing);
    assert(memory_lines(nothing) =~= Seq::<u8>::empty());
    assert(memory_lines(seq![m].drop_last()) =~= Seq::<u8>::empty());
    assert(Seq::<u8>::empty() + memory_line(m) =~= memory_line(m));
    if then.len() == 0 {
        assert(first + then =~= first);
        assert(memory_lines(first) + memory_lines(then) =~= memory_lines(first));
    } else {
        assert((first + then).drop_last() =~= first + then.drop_last());
        law_memories_line_up(first, then.drop_last(), m);
        assert(memory_lines(first + then) =~= memory_lines(first) + memory_lines(then));
    }
}

/// All memories are shown if they were asked for, and else the newest eight; they
/// can be shown if none of them is said to be longer than 64 bytes.
pub proof fn law_which_memories_are_shown(s: TasyView)
    ensures
        ({
            let shown = s.shown_memories();
            let n = s.memories.len();
            &&& s.show_all_memories ==> shown == s.memories
            &&& !s.show_all_memories ==> shown.len() == (if n < 8 { n } else { 8 })
            &&& forall|i: int|
                0 <= i < shown.len() ==> #[trigger] shown[i] == s.memories[i + n - shown.len()]
            &&& s.presentable() <==> forall|i: int|
                0 <= i < shown.len() ==> (#[trigger] shown[i]).len <= 64
        }),
{
    let shown = s.shown_memories();
    if forall|i: int| 0 <= i < shown.len() ==> (#[trigger] shown[i]).len <= 64 {
        assert forall|i: int| 0 <= i < shown.len() implies (#[trigger] shown[i]).readable() by {}
    }
}

} // verus!
