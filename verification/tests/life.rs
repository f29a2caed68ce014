use tasy::entity::{raise, Tasy};
use tasy::event::Event;
use tasy::memory::{Memory, MemoryKind};
use tasy::mood::Mood;

fn text(m: &Memory) -> String {
    String::from_utf8(m.text[..m.len as usize].to_vec()).unwrap()
}

fn memories(t: &Tasy) -> Vec<(u32, String, u8, u8)> {
    (0..t.memories.len())
        .map(|i| t.memories.get(i))
        .map(|m| (m.timestamp, text(&m), m.kind, m.importance))
        .collect()
}

fn events(t: &mut Tasy) -> Vec<Event> {
    let mut all = Vec::new();
    while let Some(e) = t.events.event_pop() {
        all.push(e);
    }
    all
}

#[test]
fn new_entity() {
    let t = Tasy::new();
    assert_eq!((t.sync_rate, t.energy, t.integrity, t.bpm), (100, 100, 100, 60));
    assert_eq!((t.stress, t.loneliness, t.curiosity, t.stability), (0, 0, 50, 100));
    assert_eq!(t.mood, Mood::Calm);
    assert_eq!((t.session_seconds, t.boot_count, t.last_interaction), (0, 0, 0));
    assert!(!t.sleeping && !t.should_exit && !t.show_all_memories);
    assert_eq!(t.name.len(), 0);
    assert_eq!(t.memories.len(), 0);
}

#[test]
fn boot_names_and_counts() {
    let mut t = Tasy::new();
    t.session_seconds = 500;
    t.boot();
    assert_eq!(t.name.as_bytes(), b"TASY");
    assert_eq!(t.boot_count, 1);
    assert_eq!(t.last_interaction, 500);
    assert_eq!(memories(&t), vec![(500, "System boot".to_string(), 4, 80)]);
    assert_eq!(events(&mut t), vec![Event::WakeUp]);

    t.set_entity_name("Ada");
    t.boot_count = u32::MAX;
    t.boot();
    assert_eq!(t.name.as_bytes(), b"Ada");
    assert_eq!(t.boot_count, 0);
}

#[test]
fn default_state_keeps_modes() {
    let mut t = Tasy::new();
    t.sync_rate = 3;
    t.mood = Mood::Lonely;
    t.session_seconds = 9;
    t.boot_count = 9;
    t.personality.attachment = 99;
    t.sleeping = true;
    t.show_all_memories = true;
    t.push_memory("x", MemoryKind::StressEvent, 1);
    t.event_push(Event::SyncLost);
    t.set_entity_name("Ada");
    t.apply_default_state();
    assert_eq!((t.sync_rate, t.mood, t.session_seconds, t.boot_count), (100, Mood::Calm, 0, 0));
    assert_eq!(t.personality.attachment, 70);
    assert_eq!(t.name.as_bytes(), b"TASY");
    assert_eq!(t.memories.len(), 0);
    assert!(t.sleeping && t.show_all_memories);
    assert_eq!(events(&mut t), vec![Event::SyncLost]);
}

#[test]
fn levels_are_raised_to_the_top_at_most() {
    assert_eq!(raise(0, 0), 0);
    assert_eq!(raise(94, 5), 99);
    assert_eq!(raise(95, 5), 100);
    assert_eq!(raise(100, 100), 100);
}

#[test]
fn mood_priority() {
    let mut t = Tasy::new();
    t.energy = 19;
    t.stress = 61;
    t.loneliness = 61;
    t.curiosity = 71;
    assert_eq!(t.compute_mood(), Mood::Exhausted);
    t.energy = 20;
    assert_eq!(t.compute_mood(), Mood::Distressed);
    t.stress = 60;
    assert_eq!(t.compute_mood(), Mood::Lonely);
    t.loneliness = 60;
    assert_eq!(t.compute_mood(), Mood::Calm);
    t.stress = 30;
    assert_eq!(t.compute_mood(), Mood::Calm);
    t.stress = 29;
    assert_eq!(t.compute_mood(), Mood::Curious);
    t.curiosity = 70;
    assert_eq!(t.compute_mood(), Mood::Calm);
}

#[test]
fn session_tells_of_minutes() {
    let mut t = Tasy::new();
    for _ in 0..59 {
        t.session_second();
    }
    assert_eq!(events(&mut t), vec![]);
    t.session_second();
    assert_eq!(t.session_seconds, 60);
    assert_eq!(t.minute_seconds, 0);
    assert_eq!(events(&mut t), vec![Event::TickMinute]);
}

#[test]
fn entity_falls_asleep_when_left_alone() {
    let mut t = Tasy::new();
    t.session_seconds = 1000;
    t.last_interaction = 1000;
    for _ in 0..299 {
        t.session_second();
        assert!(!t.sleeping);
    }
    events(&mut t);
    t.session_second();
    assert!(t.sleeping);
    assert_eq!(events(&mut t), vec![Event::TickMinute, Event::SleepEntered]);
    t.session_second();
    assert!(t.sleeping);
    assert_eq!(events(&mut t), vec![]);
}

#[test]
fn interaction_in_the_future_counts_as_now() {
    let mut t = Tasy::new();
    t.last_interaction = u32::MAX;
    for _ in 0..400 {
        t.session_second();
    }
    assert!(!t.sleeping);
}

#[test]
fn metabolism_awake() {
    let mut t = Tasy::new();
    t.metabolism_turn();
    assert_eq!((t.sync_rate, t.stress, t.bpm, t.energy, t.integrity), (99, 1, 60, 100, 100));

    t.sync_rate = 51;
    t.metabolism_turn();
    assert_eq!((t.sync_rate, t.stress, t.bpm), (50, 55, 93));
    assert_eq!(t.energy, 98);

    t.sync_rate = 62;
    t.energy = 50;
    t.metabolism_turn();
    assert_eq!((t.sync_rate, t.stress, t.energy), (61, 42, 50));

    t.sync_rate = 61;
    t.metabolism_turn();
    assert_eq!((t.sync_rate, t.energy), (60, 49));

    t.personality.optimism = 50;
    t.sync_rate = 100;
    t.metabolism_turn();
    assert_eq!(t.energy, 48);
}

#[test]
fn metabolism_without_sync_costs_integrity() {
    let mut t = Tasy::new();
    t.sync_rate = 1;
    t.integrity = 7;
    t.metabolism_turn();
    assert_eq!((t.sync_rate, t.stress, t.bpm, t.integrity), (0, 100, 120, 2));
    t.metabolism_turn();
    assert_eq!(t.integrity, 0);
    t.metabolism_turn();
    assert_eq!(t.integrity, 0);
    assert_eq!(events(&mut t), vec![Event::IntegrityLost, Event::IntegrityLost]);
}

#[test]
fn metabolism_asleep_rests() {
    let mut t = Tasy::new();
    t.sleeping = true;
    t.sync_rate = 0;
    t.energy = 30;
    t.metabolism_turn();
    assert_eq!((t.sync_rate, t.integrity, t.energy, t.bpm, t.stress), (0, 100, 30, 40, 100));
    assert_eq!(events(&mut t), vec![]);
    t.sync_rate = 80;
    t.metabolism_turn();
    assert_eq!((t.sync_rate, t.energy), (80, 31));
}

#[test]
fn aggression_strengthens_stress() {
    let mut t = Tasy::new();
    t.sync_rate = 61;
    t.personality.aggression = 0;
    t.metabolism_turn();
    assert_eq!(t.stress, 40);
    t.sync_rate = 61;
    t.personality.aggression = 100;
    t.metabolism_turn();
    assert_eq!(t.stress, 60);
    t.sync_rate = 61;
    t.personality.aggression = 255;
    t.metabolism_turn();
    assert_eq!(t.stress, 91);
}

#[test]
fn loneliness_grows_with_attachment() {
    let mut t = Tasy::new();
    t.session_seconds = 61;
    t.personality.attachment = 100;
    t.cognition_cycle();
    assert_eq!(t.loneliness, 2);
    t.personality.attachment = 49;
    t.cognition_cycle();
    assert_eq!(t.loneliness, 3);
    t.personality.attachment = 255;
    t.cognition_cycle();
    assert_eq!(t.loneliness, 8);
    t.last_interaction = 1;
    t.cognition_cycle();
    assert_eq!(t.loneliness, 6);
    t.sleeping = true;
    t.cognition_cycle();
    assert_eq!(t.loneliness, 6);
}

#[test]
fn deep_loneliness_is_remembered() {
    let mut t = Tasy::new();
    t.session_seconds = 100;
    t.loneliness = 49;
    t.cognition_cycle();
    assert_eq!(t.loneliness, 50);
    assert_eq!(memories(&t), vec![(100, "Isolation deepens".to_string(), 1, 65)]);
    t.loneliness = 79;
    t.cognition_cycle();
    assert_eq!(memories(&t)[1], (100, "Critical loneliness".to_string(), 2, 85));
    assert_eq!(memories(&t)[2], (100, "Lonely".to_string(), 4, 55));
    assert_eq!(t.stability, 60);
}

#[test]
fn curiosity_drifts_to_its_base() {
    let mut t = Tasy::new();
    t.cognition_cycle();
    assert_eq!(t.curiosity, 51);
    t.curiosity = 62;
    t.cognition_cycle();
    assert_eq!(t.curiosity, 61);
    t.curiosity = 60;
    t.cognition_cycle();
    assert_eq!(t.curiosity, 60);
    t.personality.curiosity = 255;
    t.curiosity = 100;
    t.cognition_cycle();
    assert_eq!(t.curiosity, 100);
    t.sleeping = true;
    t.curiosity = 10;
    t.cognition_cycle();
    assert_eq!(t.curiosity, 10);
}

#[test]
fn lost_sync_is_noticed() {
    let mut t = Tasy::new();
    t.sync_rate = 19;
    t.stress = 71;
    t.cognition_cycle();
    let texts: Vec<String> = memories(&t).into_iter().map(|m| m.1).collect();
    assert_eq!(texts, vec!["Sync critical", "Distressed", "Sync lost"]);
    assert_eq!(t.mood, Mood::Distressed);
    assert_eq!(t.stability, 65);
}

#[test]
fn events_are_dealt_with_in_order() {
    let mut t = Tasy::new();
    t.loneliness = 50;
    t.integrity = 29;
    t.event_push(Event::SleepEntered);
    t.event_push(Event::WakeUp);
    t.event_push(Event::IntegrityLost);
    t.event_push(Event::TickMinute);
    t.event_push(Event::UserMessage);
    t.event_push(Event::SyncLost);
    t.consume_events();
    assert_eq!(t.loneliness, 30);
    assert_eq!(t.curiosity, 52);
    let got: Vec<(String, u8, u8)> = memories(&t).into_iter().map(|m| (m.1, m.2, m.3)).collect();
    assert_eq!(
        got,
        vec![
            ("Sleep entered".to_string(), 4, 50),
            ("Integrity critical".to_string(), 2, 90),
            ("Sync lost".to_string(), 2, 75),
        ]
    );
    assert_eq!(events(&mut t), vec![]);
}

#[test]
fn minute_rouses_curiosity_only_at_ease() {
    let mut t = Tasy::new();
    t.stress = 40;
    t.event_push(Event::TickMinute);
    t.consume_events();
    assert_eq!(t.curiosity, 50);
    t.stress = 39;
    t.sleeping = true;
    t.event_push(Event::TickMinute);
    t.consume_events();
    assert_eq!(t.curiosity, 50);
    t.sleeping = false;
    t.curiosity = 99;
    t.event_push(Event::TickMinute);
    t.consume_events();
    assert_eq!(t.curiosity, 100);
    t.integrity = 30;
    t.event_push(Event::IntegrityLost);
    t.consume_events();
    assert_eq!(t.memories.len(), 0);
}

#[test]
fn mood_is_weighed_before_events() {
    let mut t = Tasy::new();
    t.session_seconds = 1000;
    t.loneliness = 70;
    t.event_push(Event::WakeUp);
    t.cognition_cycle();
    assert_eq!(t.mood, Mood::Lonely);
    assert_eq!(t.loneliness, 51);
    assert_eq!(events(&mut t), vec![]);
}

#[test]
fn life_keeps_every_level_in_range() {
    let mut t = Tasy::new();
    t.boot();
    for second in 1..=20_000u32 {
        t.session_second();
        if second % 5 == 0 {
            t.metabolism_turn();
        }
        if second % 10 == 0 {
            t.cognition_cycle();
        }
        if second % 977 == 0 {
            t.receive_line(b"boost");
        }
        for level in
            [t.sync_rate, t.energy, t.integrity, t.stress, t.loneliness, t.curiosity, t.stability]
        {
            assert!(level <= 100);
        }
        assert!(t.bpm >= 40 && t.bpm <= 120);
        assert!(t.is_presentable());
    }
}

#[test]
fn heartbeat_follows_the_entity() {
    let mut t = Tasy::new();
    assert_eq!(t.heartbeat(), tasy::heartbeat::plan_beat(60, Mood::Calm, false));
    t.sleeping = true;
    t.bpm = 40;
    assert_eq!(t.heartbeat(), tasy::heartbeat::plan_beat(40, Mood::Calm, true));
}

#[test]
fn optimists_recover() {
    for optimism in [50u8, 51] {
        let mut t = Tasy::new();
        t.energy = 40;
        t.sync_rate = 90;
        t.personality.optimism = optimism;
        t.metabolism_turn();
        assert_eq!(t.energy, if optimism > 50 { 40 } else { 39 });
    }
}

#[test]
fn booted_entity_is_not_idle() {
    let mut t = Tasy::new();
    t.session_seconds = 5000;
    t.boot();
    t.session_second();
    assert!(!t.sleeping);
}
