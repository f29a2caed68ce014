use tasy::entity::Tasy;
use tasy::event::Event;
use tasy::memory::{Memory, MemoryKind, MemoryLog};
use tasy::mood::Mood;

fn last(t: &Tasy) -> (String, u8, u8) {
    let m = t.memories.get(t.memories.len() - 1);
    (String::from_utf8(m.text[..m.len as usize].to_vec()).unwrap(), m.kind, m.importance)
}

fn event(t: &mut Tasy) -> Option<Event> {
    t.events.event_pop()
}

#[test]
fn name_command() {
    let mut t = Tasy::new();
    t.handle_command("name  Ada Lovelace  ");
    assert_eq!(t.name.as_bytes(), b"Ada Lovelace");
    assert_eq!(last(&t), ("Entity renamed".to_string(), 0, 70));
    assert_eq!(event(&mut t), Some(Event::UserRename));
    t.handle_command("name   ");
    assert_eq!(t.name.as_bytes(), b"Ada Lovelace");
    assert_eq!(t.memories.len(), 1);
    assert_eq!(event(&mut t), None);
}

#[test]
fn msg_command() {
    let mut t = Tasy::new();
    t.session_seconds = 42;
    t.handle_command("msg hello there");
    assert_eq!(last(&t), ("hello there".to_string(), 0, 50));
    assert_eq!(t.memories.get(0).timestamp, 42);
    assert_eq!(t.curiosity, 55);
    assert_eq!(event(&mut t), Some(Event::UserMessage));
    t.curiosity = 98;
    t.handle_command("msg x");
    assert_eq!(t.curiosity, 100);
    t.handle_command("msg");
    assert_eq!(t.memories.len(), 2);
}

#[test]
fn status_and_memories_commands() {
    let mut t = Tasy::new();
    t.handle_command("status");
    assert_eq!(last(&t), ("Status queried".to_string(), 0, 15));
    assert!(!t.show_all_memories);
    t.handle_command("memories");
    assert_eq!(last(&t), ("Memories accessed".to_string(), 0, 15));
    assert!(t.show_all_memories);
    assert_eq!(event(&mut t), None);
}

#[test]
fn heal_and_boost_commands() {
    let mut t = Tasy::new();
    t.integrity = 10;
    t.sync_rate = 10;
    t.handle_command("heal now");
    assert_eq!(t.integrity, 25);
    assert_eq!(last(&t), ("Integrity healed".to_string(), 0, 60));
    t.handle_command("boost");
    assert_eq!(t.sync_rate, 30);
    assert_eq!(last(&t), ("Sync boosted".to_string(), 0, 60));
    t.integrity = 90;
    t.sync_rate = 90;
    t.handle_command("heal");
    t.handle_command("boost");
    assert_eq!((t.integrity, t.sync_rate), (100, 100));
}

#[test]
fn sleep_and_wake_commands() {
    let mut t = Tasy::new();
    t.session_seconds = 77;
    t.handle_command("sleep");
    assert!(t.sleeping);
    assert_eq!(t.last_interaction, 0);
    assert_eq!(last(&t), ("Sleep by command".to_string(), 4, 70));
    assert_eq!(event(&mut t), Some(Event::SleepEntered));
    t.handle_command("wake");
    assert!(!t.sleeping);
    assert_eq!(t.last_interaction, 77);
    assert_eq!(last(&t), ("Wake by command".to_string(), 4, 70));
    assert_eq!(event(&mut t), Some(Event::WakeUp));
}

#[test]
fn exit_command() {
    let mut t = Tasy::new();
    t.handle_command("exit");
    assert!(t.should_exit);
    assert_eq!(t.memories.len(), 0);
}

#[test]
fn unknown_commands() {
    let mut t = Tasy::new();
    for line in ["", " ", "Name x", " name x", "name\tx", "sleepy", "привет"] {
        t.handle_command(line);
        assert_eq!(last(&t), ("Unknown command".to_string(), 1, 5));
    }
    assert_eq!(t.name.len(), 0);
    assert!(!t.sleeping);
}

#[test]
fn any_command_comforts() {
    let mut t = Tasy::new();
    t.loneliness = 25;
    t.handle_command("exit");
    assert_eq!(t.loneliness, 15);
    t.handle_command("nonsense");
    assert_eq!(t.loneliness, 5);
    t.handle_command("name");
    assert_eq!(t.loneliness, 0);
}

#[test]
fn line_wakes_and_teaches() {
    let mut t = Tasy::new();
    t.session_seconds = 600;
    t.sleeping = true;
    t.loneliness = 41;
    t.receive_line(b"status");
    assert!(!t.sleeping);
    assert_eq!(t.last_interaction, 600);
    assert_eq!(t.personality.attachment, 71);
    assert_eq!(t.loneliness, 31);
    assert_eq!(event(&mut t), Some(Event::WakeUp));
    assert_eq!(t.memories.len(), 2);
    let m = t.memories.get(0);
    assert_eq!(&m.text[..m.len as usize], b"Learned: user returns");
    assert_eq!((m.kind, m.importance), (3, 90));

    t.sleeping = true;
    t.loneliness = 40;
    t.receive_line(b"sleep");
    assert!(t.sleeping);
    assert_eq!(t.personality.attachment, 71);
    assert_eq!(event(&mut t), Some(Event::WakeUp));
    assert_eq!(event(&mut t), Some(Event::SleepEntered));

    t.sleeping = false;
    t.loneliness = 90;
    t.receive_line(b"status");
    assert_eq!(t.personality.attachment, 71);
    assert_eq!(event(&mut t), None);
}

#[test]
fn line_that_is_no_text_is_unknown() {
    let mut t = Tasy::new();
    t.receive_line(b"name \xff\xfe");
    assert_eq!(last(&t), ("Unknown command".to_string(), 1, 5));
    t.receive_line("name Зоя".as_bytes());
    assert_eq!(t.name.as_bytes(), "Зоя".as_bytes());
}

fn screen(t: &mut Tasy) -> String {
    String::from_utf8(t.render_ui()).unwrap()
}

#[test]
fn screen_of_a_new_entity() {
    let mut t = Tasy::new();
    t.boot();
    let rule2 = "=".repeat(50) + "\r\n";
    let rule1 = "-".repeat(50) + "\r\n";
    let want = [
        "\x1B[2J\x1B[H",
        &rule2,
        "           [ TASY v2 - AUTONOMOUS CORE      ]    \r\n",
        &rule2,
        "  Entity   : TASY\r\n",
        "  Mood     : Calm\r\n",
        &rule1,
        "  Sync     : 100 %\r\n",
        "  Energy   : 100 %\r\n",
        "  Integrity: 100 %\r\n",
        &rule1,
        "  Stress   : 0\r\n",
        "  Loneliness: 0\r\n",
        "  Curiosity : 50\r\n",
        "  Stability : 100\r\n",
        &rule1,
        "  BPM      : 60\r\n",
        "  Boot #   : 1\r\n",
        "  Session  : 0 s\r\n",
        &rule2,
        "  [ Recent Memory ]\r\n",
        "  [0s|TRANS|80] System boot\r\n",
        &rule2,
        "  name  msg  status  memories  heal  boost\r\n",
        "  sleep  wake  exit\r\n",
    ]
    .concat();
    assert_eq!(screen(&mut t), want);
}

#[test]
fn screen_of_a_sleeper() {
    let mut t = Tasy::new();
    t.sleeping = true;
    t.mood = Mood::Distressed;
    t.session_seconds = u32::MAX;
    let s = screen(&mut t);
    assert!(s.contains("           [ TASY v2 - DORMANT              ]    \r\n"));
    assert!(s.contains("  Mood     : Distressed\r\n"));
    assert!(s.contains("  Session  : 4294967295 s\r\n"));
    assert!(s.contains("  Entity   : \r\n"));
}

#[test]
fn screen_shows_recent_or_all_memories() {
    let mut t = Tasy::new();
    for i in 0..12u32 {
        t.session_seconds = i;
        t.push_memory("m", MemoryKind::StressEvent, 3);
    }
    let s = screen(&mut t);
    assert!(s.contains("  [ Recent Memory ]\r\n  [4s|STRSS|3] m\r\n"));
    assert_eq!(s.matches("|STRSS|3] m\r\n").count(), 8);
    t.show_all_memories = true;
    let s = screen(&mut t);
    assert!(s.contains("  [ All Memories ]\r\n  [0s|STRSS|3] m\r\n"));
    assert_eq!(s.matches("|STRSS|3] m\r\n").count(), 12);
    assert!(!t.show_all_memories);
    assert_eq!(screen(&mut t).matches("|STRSS|3] m\r\n").count(), 8);
}

#[test]
fn screen_skips_memories_without_text() {
    let mut t = Tasy::new();
    t.push_memory("", MemoryKind::StressEvent, 3);
    assert!(!screen(&mut t).contains("STRSS"));
}

#[test]
fn text_cut_within_a_character_is_not_shown() {
    let mut t = Tasy::new();
    let long = "я".repeat(33);
    t.handle_command(&format!("msg a{}", long));
    t.handle_command(&format!("name a{}", long));
    let s = screen(&mut t);
    assert!(s.contains("|USER|50] ?\r\n"));
    assert!(s.contains("  Entity   : TASY\r\n"));

    let whole = "я".repeat(40);
    t.handle_command(&format!("msg {}", whole));
    t.handle_command(&format!("name {}", whole));
    let s = screen(&mut t);
    assert!(s.contains(&format!("|USER|50] {}\r\n", "я".repeat(32))));
    assert!(s.contains(&format!("  Entity   : {}\r\n", "я".repeat(16))));
}

#[test]
fn memory_longer_than_its_place_is_not_presentable() {
    let mut t = Tasy::new();
    assert!(t.is_presentable());
    let mut slots = [Memory::record(1, "x", MemoryKind::InternalEvent, 1); 32];
    slots[0].len = 65;
    t.memories = MemoryLog::from_slots(&slots, 20);
    assert!(t.is_presentable());
    t.show_all_memories = true;
    assert!(!t.is_presentable());
    t.memories = MemoryLog::from_slots(&slots, 8);
    t.show_all_memories = false;
    assert!(!t.is_presentable());
    slots[0].len = 64;
    t.memories = MemoryLog::from_slots(&slots, 8);
    assert!(t.is_presentable());
}
