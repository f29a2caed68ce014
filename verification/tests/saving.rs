use tasy::checksum::checksum;
use tasy::entity::Tasy;
use tasy::event::Event;
use tasy::memory::MemoryKind;
use tasy::mood::Mood;
use tasy::save_data::{SaveData, SAVE_MAGIC, SAVE_SIZE, SAVE_VERSION};
use tasy::storage::save_offset;

fn lived() -> Tasy {
    let mut t = Tasy::new();
    t.boot();
    t.sync_rate = 11;
    t.energy = 22;
    t.integrity = 33;
    t.bpm = 44;
    t.stress = 55;
    t.loneliness = 66;
    t.curiosity = 77;
    t.stability = 88;
    t.mood = Mood::Distressed;
    t.session_seconds = 0x01020304;
    t.boot_count = 5;
    t.last_interaction = 0x01020300;
    t.personality.curiosity = 1;
    t.personality.attachment = 2;
    t.personality.aggression = 3;
    t.personality.optimism = 4;
    t.set_entity_name("Ada");
    t.push_memory("one", MemoryKind::LearnedPattern, 9);
    t
}

fn sign(d: &mut SaveData) -> [u8; SAVE_SIZE] {
    d.checksum = 0;
    d.checksum = checksum(&d.to_bytes());
    d.to_bytes()
}

fn is_default(t: &Tasy) -> bool {
    t.sync_rate == 100
        && t.energy == 100
        && t.integrity == 100
        && t.bpm == 60
        && t.stress == 0
        && t.loneliness == 0
        && t.curiosity == 50
        && t.stability == 100
        && t.mood == Mood::Calm
        && t.session_seconds == 0
        && t.boot_count == 0
        && t.last_interaction == 0
        && t.name.as_bytes() == b"TASY"
        && t.memories.len() == 0
        && t.personality.attachment == 70
}

#[test]
fn image_layout() {
    let b = lived().save_state();
    assert_eq!(b.len(), 2404);
    let word = |at: usize| u32::from_le_bytes([b[at], b[at + 1], b[at + 2], b[at + 3]]);
    assert_eq!(word(0), 0x54535959);
    assert_eq!(word(4), 2);
    for (i, v) in [11, 22, 33, 44, 55, 66, 77, 88, 3].iter().enumerate() {
        assert_eq!(word(12 + 4 * i), *v);
    }
    assert_eq!(word(48), 0x01020304);
    assert_eq!(&b[48..52], &[4, 3, 2, 1]);
    assert_eq!(word(52), 5);
    assert_eq!(word(56), 0x01020300);
    assert_eq!(&b[60..64], &[3, 2, 0, 0]);
    assert_eq!(&b[64..68], b"Ada\0");
    assert_eq!(&b[96..100], &[1, 2, 3, 4]);
    assert_eq!(&b[100..108], &[0, 0, 0, 0, 80, 4, 11, 0]);
    assert_eq!(&b[108..119], b"System boot");
    assert_eq!(&b[172..180], &[4, 3, 2, 1, 9, 3, 3, 0]);
    assert_eq!(&b[180..184], b"one\0");
    assert!(b[244..].iter().all(|x| *x == 0));
    let mut unsigned = b;
    unsigned[8..12].fill(0);
    assert_eq!(word(8), checksum(&unsigned));
}

#[test]
fn content_survives_the_image() {
    let b = lived().save_state();
    let d = SaveData::from_bytes(&b);
    assert_eq!((d.magic, d.version), (SAVE_MAGIC, SAVE_VERSION));
    assert_eq!((d.name_len, d.memory_count, d.pad), (3, 2, [0, 0]));
    assert_eq!(d.memories[1].importance, 9);
    assert_eq!(d.to_bytes(), b);
    let mut odd = [0u8; SAVE_SIZE];
    for i in 0..SAVE_SIZE {
        odd[i] = (i * 7 + i / 256) as u8;
    }
    assert_eq!(SaveData::from_bytes(&odd).to_bytes(), odd);
}

#[test]
fn initial_content() {
    let d = SaveData::default_state();
    assert_eq!((d.magic, d.version, d.checksum), (0x54535959, 2, 0));
    assert_eq!((d.sync_rate, d.bpm, d.curiosity, d.mood), (100, 60, 50, 0));
    assert_eq!((d.name_len, d.memory_count), (0, 0));
    assert_eq!(d.entity_name, [0u8; 32]);
}

#[test]
fn load_gives_back_what_was_saved() {
    let saved = lived();
    let mut t = Tasy::new();
    t.sleeping = true;
    t.event_push(Event::SyncLost);
    t.load_state(Some(&saved.save_state()));
    assert_eq!((t.sync_rate, t.energy, t.integrity, t.bpm), (11, 22, 33, 44));
    assert_eq!((t.stress, t.loneliness, t.curiosity, t.stability), (55, 66, 77, 88));
    assert_eq!(t.mood, Mood::Distressed);
    assert_eq!((t.session_seconds, t.boot_count, t.last_interaction), (0x01020304, 5, 0x01020300));
    assert_eq!(t.name.as_bytes(), b"Ada");
    assert_eq!(t.personality, saved.personality);
    assert_eq!(t.memories.len(), 2);
    assert_eq!(&t.memories.get(1).text[..3], b"one");
    assert!(t.sleeping);
    assert_eq!(t.events.event_pop(), Some(Event::SyncLost));
    assert_eq!(t.save_state(), saved.save_state());
}

#[test]
fn full_log_survives() {
    let mut s = Tasy::new();
    for i in 0..50u32 {
        s.session_seconds = i;
        s.push_memory("memory", MemoryKind::InternalEvent, i as u8);
    }
    let mut t = Tasy::new();
    t.load_state(Some(&s.save_state()));
    assert_eq!(t.memories.len(), 32);
    for i in 0..32usize {
        assert_eq!(t.memories.get(i).timestamp, i as u32 + 18);
    }
}

#[test]
fn failed_read_resets() {
    let mut t = lived();
    t.load_state(None);
    assert!(is_default(&t));
}

#[test]
fn foreign_images_reset() {
    let mut t = lived();
    t.load_state(Some(&[0xff; SAVE_SIZE]));
    assert!(is_default(&t));

    let mut d = SaveData::from_bytes(&lived().save_state());
    d.version = 1;
    let mut t = lived();
    t.load_state(Some(&sign(&mut d)));
    assert!(is_default(&t));

    let mut d = SaveData::from_bytes(&lived().save_state());
    d.magic = 0;
    let mut t = lived();
    t.load_state(Some(&sign(&mut d)));
    assert!(is_default(&t));
}

#[test]
fn image_damaged_in_any_byte_resets() {
    let good = lived().save_state();
    for i in 0..SAVE_SIZE {
        let mut bad = good;
        bad[i] ^= 1 << (i % 8);
        let mut t = lived();
        t.load_state(Some(&bad));
        assert!(is_default(&t), "byte {}", i);
    }
}

#[test]
fn levels_are_brought_into_range() {
    let mut d = SaveData::default_state();
    d.sync_rate = 101;
    d.energy = 1000;
    d.integrity = u32::MAX;
    d.bpm = 0;
    d.stress = 200;
    d.loneliness = 101;
    d.curiosity = 102;
    d.stability = 103;
    d.mood = 9;
    d.name_len = 200;
    d.memory_count = 99;
    d.entity_name = [b'n'; 32];
    d.personality.curiosity = 255;
    d.memories[31].len = 200;
    let mut t = Tasy::new();
    t.load_state(Some(&sign(&mut d)));
    assert_eq!((t.sync_rate, t.energy, t.integrity, t.bpm), (100, 100, 100, 1));
    assert_eq!((t.stress, t.loneliness, t.curiosity, t.stability), (100, 100, 100, 100));
    assert_eq!(t.mood, Mood::Exhausted);
    assert_eq!(t.name.as_bytes(), &[b'n'; 32]);
    assert_eq!(t.personality.curiosity, 255);
    assert_eq!(t.memories.len(), 32);
    assert_eq!(t.memories.get(31).len, 200);
    assert!(!t.is_presentable());
}

#[test]
fn name_without_length_is_given_at_start() {
    let mut d = SaveData::default_state();
    d.entity_name[0] = b'x';
    let mut t = Tasy::new();
    t.load_state(Some(&sign(&mut d)));
    assert_eq!(t.name.len(), 0);
    t.boot();
    assert_eq!(t.name.as_bytes(), b"TASY");
}

#[test]
fn image_lies_in_the_last_sector() {
    assert_eq!(save_offset(4 * 1024 * 1024, 4096), 4 * 1024 * 1024 - 4096);
    assert_eq!(save_offset(4096, 4096), 0);
}
