use tasy::checksum::checksum;
use tasy::console::{Key, LineEditor};
use tasy::decimal::u32_to_ascii;
use tasy::event::{Event, EventBus};
use tasy::heartbeat::{plan_beat, LedStep};
use tasy::memory::{Memory, MemoryKind, MemoryLog};
use tasy::mood::Mood;
use tasy::name::EntityName;
use tasy::personality::Personality;
use tasy::text::{is_white_space, same_text, split_once_at_space, trim};

const EVENTS: [Event; 8] = [
    Event::TickMinute,
    Event::UserMessage,
    Event::UserRename,
    Event::IntegrityLost,
    Event::SyncLost,
    Event::MemoryCreated,
    Event::SleepEntered,
    Event::WakeUp,
];

#[test]
fn event_codes() {
    for (i, e) in EVENTS.iter().enumerate() {
        assert_eq!(e.code() as usize, i);
        assert_eq!(Event::from_u8(i as u8), Some(*e));
    }
    for v in 8..=255u8 {
        assert_eq!(Event::from_u8(v), None);
    }
}

#[test]
fn bus_is_first_in_first_out() {
    let mut bus = EventBus::new();
    assert_eq!(bus.event_pop(), None);
    for _ in 0..5 {
        for e in EVENTS {
            bus.event_push(e);
        }
        for e in EVENTS {
            assert_eq!(bus.event_pop(), Some(e));
        }
        assert_eq!(bus.event_pop(), None);
    }
}

#[test]
fn full_bus_drops_new_events() {
    let mut bus = EventBus::new();
    for _ in 0..15 {
        bus.event_push(Event::SyncLost);
    }
    bus.event_push(Event::WakeUp);
    for _ in 0..15 {
        assert_eq!(bus.event_pop(), Some(Event::SyncLost));
    }
    assert_eq!(bus.event_pop(), None);
    bus.event_push(Event::WakeUp);
    assert_eq!(bus.event_pop(), Some(Event::WakeUp));
}

#[test]
fn mood_codes_and_labels() {
    let moods = [Mood::Calm, Mood::Curious, Mood::Lonely, Mood::Distressed, Mood::Exhausted];
    let labels = ["Calm", "Curious", "Lonely", "Distressed", "Exhausted"];
    for (i, m) in moods.iter().enumerate() {
        assert_eq!(m.code() as usize, i);
        assert_eq!(Mood::from_u32(i as u32), *m);
        assert_eq!(m.label(), labels[i]);
    }
    assert_eq!(Mood::from_u32(5), Mood::Calm);
    assert_eq!(Mood::from_u32(u32::MAX), Mood::Calm);
}

#[test]
fn memory_kind_codes_and_labels() {
    let kinds = [
        MemoryKind::UserInteraction,
        MemoryKind::InternalEvent,
        MemoryKind::StressEvent,
        MemoryKind::LearnedPattern,
        MemoryKind::StateTransition,
    ];
    let labels = ["USER", "INTL", "STRSS", "LEARN", "TRANS"];
    for (i, k) in kinds.iter().enumerate() {
        assert_eq!(k.code() as usize, i);
        assert_eq!(MemoryKind::from_u8(i as u8), *k);
        assert_eq!(k.label(), labels[i]);
    }
    assert_eq!(MemoryKind::from_u8(5), MemoryKind::UserInteraction);
    assert_eq!(MemoryKind::from_u8(255), MemoryKind::UserInteraction);
}

#[test]
fn memory_keeps_text_up_to_its_capacity() {
    let m = Memory::record(7, "hello", MemoryKind::StressEvent, 9);
    assert_eq!((m.timestamp, m.kind, m.importance, m.len, m.pad), (7, 2, 9, 5, 0));
    assert_eq!(&m.text[..5], b"hello");
    assert!(m.text[5..].iter().all(|b| *b == 0));

    let long = "x".repeat(65);
    let m = Memory::record(0, &long, MemoryKind::UserInteraction, 0);
    assert_eq!(m.len, 64);
    assert!(m.text.iter().all(|b| *b == b'x'));

    let m = Memory::empty();
    assert_eq!((m.timestamp, m.kind, m.importance, m.len), (0, 0, 0, 0));
}

#[test]
fn full_log_forgets_oldest() {
    let mut log = MemoryLog::new();
    for i in 0..40u32 {
        log.push(Memory::record(i, "m", MemoryKind::InternalEvent, 1));
        assert_eq!(log.len(), std::cmp::min(i as usize + 1, 32));
        assert_eq!(log.get(log.len() - 1).timestamp, i);
    }
    for i in 0..32usize {
        assert_eq!(log.get(i).timestamp, i as u32 + 8);
    }
}

#[test]
fn name_is_cut_to_its_capacity() {
    assert_eq!(EntityName::empty().len(), 0);
    let n = EntityName::from_text("Ada");
    assert_eq!(n.as_bytes(), b"Ada");
    assert_eq!(&n.padded()[..4], b"Ada\0");
    let n = EntityName::from_text(&"y".repeat(33));
    assert_eq!(n.as_bytes(), "y".repeat(32).as_bytes());
}

#[test]
fn attachment_is_reinforced_up_to_its_limit() {
    let mut p = Personality::initial();
    assert_eq!((p.curiosity, p.attachment, p.aggression, p.optimism), (60, 70, 20, 65));
    p.reinforce_attachment();
    assert_eq!(p.attachment, 71);
    p.attachment = 99;
    p.reinforce_attachment();
    p.reinforce_attachment();
    assert_eq!(p.attachment, 100);
    p.attachment = 255;
    p.reinforce_attachment();
    assert_eq!(p.attachment, 100);
    assert_eq!((p.curiosity, p.aggression, p.optimism), (60, 20, 65));
}

#[test]
fn white_space_is_that_of_std() {
    for v in 0..=0x10ffffu32 {
        if let Some(c) = char::from_u32(v) {
            assert_eq!(is_white_space(c), c.is_whitespace(), "{:x}", v);
        }
    }
}

#[test]
fn trim_and_split_are_those_of_std() {
    let lines = [
        "",
        " ",
        "  ",
        "a",
        " a ",
        "name Ada",
        "name  Ada  Lovelace ",
        " name x",
        "msg\tx",
        "msg \t\u{a0}привет\u{3000} \u{2028}",
        "ы ы ы",
        "x ",
    ];
    for line in lines {
        assert_eq!(trim(line), line.trim());
        let mut parts = line.splitn(2, ' ');
        let first = parts.next().unwrap_or("");
        let second = parts.next().unwrap_or("");
        assert_eq!(split_once_at_space(line), (first, second));
        for other in lines {
            assert_eq!(same_text(line, other), line == other);
        }
    }
}

#[test]
fn decimal_numbers() {
    for v in [0u32, 1, 9, 10, 99, 100, 101, 1000, 65535, 4294967294, u32::MAX] {
        let mut buf = [b'-'; 10];
        let digits = u32_to_ascii(v, &mut buf).to_vec();
        assert_eq!(digits, v.to_string().into_bytes());
        assert!(buf[..10 - digits.len()].iter().all(|b| *b == b'-'));
        assert_eq!(&buf[10 - digits.len()..], &digits[..]);
    }
}

#[test]
fn checksum_values() {
    assert_eq!(checksum(&[]), 0);
    assert_eq!(checksum(&[0]), 0xA5A55A5A);
    assert_eq!(checksum(&[1]), 0xA5A55A52);
    assert_eq!(checksum(b"TASY"), 0xAB6B7D65);
    let all: Vec<u8> = (0..=255u8).collect();
    assert_eq!(checksum(&all), 0x913F272B);
}

#[test]
fn checksum_sees_any_single_byte() {
    let good = b"the quick brown fox".to_vec();
    let sum = checksum(&good);
    for i in 0..good.len() {
        for b in 0..=255u8 {
            let mut bad = good.clone();
            bad[i] = b;
            assert_eq!(checksum(&bad) == sum, b == good[i]);
        }
    }
}

#[test]
fn beat_of_a_sleeper() {
    for mood in [Mood::Calm, Mood::Exhausted, Mood::Lonely, Mood::Distressed] {
        assert_eq!(
            plan_beat(40, mood, true),
            vec![LedStep::Duty(20), LedStep::Wait(200), LedStep::Duty(0), LedStep::Wait(4500)]
        );
    }
}

#[test]
fn beat_of_the_exhausted() {
    assert_eq!(
        plan_beat(60, Mood::Exhausted, false),
        vec![LedStep::Duty(40), LedStep::Wait(150), LedStep::Duty(0), LedStep::Wait(2000)]
    );
}

fn wave(n: u32, drop: u32, wait: u64) -> Vec<LedStep> {
    let mut steps = Vec::new();
    for i in 0..n {
        steps.push(LedStep::Duty(255u32.saturating_sub(i * drop) as u8));
        steps.push(LedStep::Wait(wait));
    }
    for i in (0..n).rev() {
        steps.push(LedStep::Duty(255u32.saturating_sub(i * drop) as u8));
        steps.push(LedStep::Wait(wait));
    }
    steps
}

#[test]
fn beat_of_the_lonely() {
    let mut want = wave(14, 16, 333);
    want.push(LedStep::Wait(1600));
    assert_eq!(plan_beat(60, Mood::Lonely, false), want);
}

#[test]
fn beat_of_the_distressed() {
    let mut want = wave(14, 16, 83);
    want.push(LedStep::Wait(100));
    want.extend(wave(14, 16, 83));
    want.push(LedStep::Wait(125));
    assert_eq!(plan_beat(120, Mood::Distressed, false), want);
}

#[test]
fn beat_of_the_calm_and_the_curious() {
    let mut want = wave(27, 8, 19);
    want.push(LedStep::Wait(333));
    assert_eq!(plan_beat(60, Mood::Calm, false), want);
    assert_eq!(plan_beat(60, Mood::Curious, false), want);
}

#[test]
fn beat_at_extreme_rates() {
    let mut want = wave(27, 8, 1);
    want.push(LedStep::Wait(0));
    assert_eq!(plan_beat(u32::MAX, Mood::Calm, false), want);
    let mut want = wave(14, 16, 1);
    want.push(LedStep::Wait(600));
    assert_eq!(plan_beat(u32::MAX, Mood::Lonely, false), want);
    assert_eq!(plan_beat(0, Mood::Calm, true)[3], LedStep::Wait(180000));
    assert_eq!(plan_beat(0, Mood::Calm, true), plan_beat(1, Mood::Calm, true));
}

fn feed_all(e: &mut LineEditor, bytes: &[u8]) -> Vec<Key> {
    bytes.iter().map(|b| e.feed(*b)).collect()
}

#[test]
fn editor_collects_a_line() {
    let mut e = LineEditor::new();
    let keys = feed_all(&mut e, b"hi\r");
    assert!(matches!(keys[0], Key::Typed(b'h')));
    assert_eq!(keys[0].echo(), b"h");
    assert!(matches!(&keys[2], Key::Line(l) if l == b"hi"));
    assert_eq!(keys[2].echo(), b"\r\n");
    let keys = feed_all(&mut e, b"\n\r");
    assert!(matches!(keys[0], Key::Blank));
    assert!(matches!(keys[1], Key::Blank));
    assert_eq!(keys[0].echo(), b"\r\n");
}

#[test]
fn editor_takes_back_bytes() {
    let mut e = LineEditor::new();
    let key = e.feed(8);
    assert!(matches!(key, Key::Ignored));
    assert!(key.echo().is_empty());
    let keys = feed_all(&mut e, b"abc\x7f\x08d\n");
    assert!(matches!(keys[3], Key::Erased));
    assert_eq!(keys[3].echo(), b"\x08 \x08");
    assert!(matches!(keys[4], Key::Erased));
    assert!(matches!(&keys[6], Key::Line(l) if l == b"ad"));
}

#[test]
fn editor_has_room_for_127_bytes() {
    let mut e = LineEditor::new();
    for _ in 0..127 {
        assert!(matches!(e.feed(b'z'), Key::Typed(b'z')));
    }
    assert!(matches!(e.feed(b'z'), Key::Ignored));
    assert!(matches!(e.feed(b'\n'), Key::Line(l) if l == vec![b'z'; 127]));
    assert!(matches!(e.feed(b'\n'), Key::Blank));
}
