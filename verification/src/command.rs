//! What the user types.

use vstd::prelude::*;
use vstd::string::StringSliceAdditionalSpecFns;
use vstd::utf8::{
    decode_utf8, decode_utf8_encode_utf8, encode_utf8, encode_utf8_decode_utf8,
    encode_utf8_valid_utf8, valid_utf8,
};

use crate::entity::{lowered, raise, raised, Tasy, TasyView};
use crate::event::{kept, law_bus_keeps_the_first, Event};
use crate::memory::{gained, law_recording_adds_one_memory, MemoryKind};
use crate::text::{
    blank, law_split_at_first_space, law_trimming_leaves_the_text, same_text, split_at_space,
    split_once_at_space, str_from_utf8, tight, trim, trimmed,
};

verus! {

/// A line as text. A line that is not UTF-8 is read as an empty one.
pub open spec fn line_text(line: Seq<u8>) -> Seq<char> {
    if valid_utf8(line) {
        decode_utf8(line)
    } else {
        Seq::empty()
    }
}

/// The first word of a command and the rest of it.
pub open spec fn command_parts(line: Seq<char>) -> (Seq<char>, Seq<char>) {
    let (word, rest) = split_at_space(line);
    (trimmed(word), trimmed(rest))
}

impl TasyView {
    /// What the command `word` with the argument `rest` does. A name or a
    /// message needs a text.
    pub open spec fn obeying(self, word: Seq<char>, rest: Seq<char>) -> TasyView {
        if word == "name"@ {
            if rest.len() == 0 {
                self
            } else {
                self.named(rest).remembering(
                    "Entity renamed"@,
                    MemoryKind::UserInteraction,
                    70,
                ).signalling(Event::UserRename)
            }
        } else if word == "msg"@ {
            if rest.len() == 0 {
                self
            } else {
                TasyView { curiosity: raised(self.curiosity, 5), ..self }.remembering(
                    rest,
                    MemoryKind::UserInteraction,
                    50,
                ).signalling(Event::UserMessage)
            }
        } else if word == "status"@ {
            self.remembering("Status queried"@, MemoryKind::UserInteraction, 15)
        } else if word == "memories"@ {
            TasyView { show_all_memories: true, ..self }.remembering(
                "Memories accessed"@,
                MemoryKind::UserInteraction,
                15,
            )
        } else if word == "heal"@ {
            TasyView { integrity: raised(self.integrity, 15), ..self }.remembering(
                "Integrity healed"@,
                MemoryKind::UserInteraction,
                60,
            )
        } else if word == "boost"@ {
            TasyView { sync_rate: raised(self.sync_rate, 20), ..self }.remembering(
                "Sync boosted"@,
                MemoryKind::UserInteraction,
                60,
            )
        } else if word == "sleep"@ {
            TasyView { sleeping: true, ..self }.remembering(
                "Sleep by command"@,
                MemoryKind::StateTransition,
                70,
            ).signalling(Event::SleepEntered)
        } else if word == "wake"@ {
            TasyView {
                sleeping: false,
                last_interaction: self.session_seconds,
                ..self
            }.remembering("Wake by command"@, MemoryKind::StateTransition, 70).signalling(
                Event::WakeUp,
            )
        } else if word == "exit"@ {
            TasyView { should_exit: true, ..self }
        } else {
            self.remembering("Unknown command"@, MemoryKind::InternalEvent, 5)
        }
    }

    /// The entity after a command. Any command makes it less lonely.
    pub open spec fn after_command(self, line: Seq<char>) -> TasyView {
        let (word, rest) = command_parts(line);
        TasyView { loneliness: lowered(self.loneliness, 10), ..self }.obeying(word, rest)
    }

    /// Any input is an interaction and wakes the entity. If it was lonely in
    /// its sleep, it learns that the user returns.
    pub open spec fn noticing_user(self) -> TasyView {
        let met = TasyView { last_interaction: self.session_seconds, ..self };
        if !self.sleeping {
            met
        } else {
            let awake = TasyView { sleeping: false, ..met }.signalling(Event::WakeUp);
            if self.loneliness > 40 {
                TasyView { personality: self.personality.attached(), ..awake }.remembering(
                    "Learned: user returns"@,
                    MemoryKind::LearnedPattern,
                    90,
                )
            } else {
                awake
            }
        }
    }

    /// The entity after a line was typed.
    pub open spec fn after_line(self, line: Seq<u8>) -> TasyView {
        self.noticing_user().after_command(line_text(line))
    }
}

impl Tasy {
    fn obey(&mut self, word: &str, rest: &str)
        requires
            old(self).wf(),
        ensures
            final(self).wf(),
            final(self)@ == old(self)@.obeying(word@, rest@),
    {
        if same_text(word, "name") {
            if !rest.is_empty() {
                self.set_entity_name(rest);
                self.push_memory("Entity renamed", MemoryKind::UserInteraction, 70);
                self.event_push(Event::UserRename);
            }
        } else if same_text(word, "msg") {
            if !rest.is_empty() {
                self.push_memory(rest, MemoryKind::UserInteraction, 50);
                self.event_push(Event::UserMessage);
                self.curiosity = raise(self.curiosity, 5);
            }
        } else if same_text(word, "status") {
            self.push_memory("Status queried", MemoryKind::UserInteraction, 15);
        } else if same_text(word, "memories") {
            self.show_all_memories = true;
            self.push_memory("Memories accessed", MemoryKind::UserInteraction, 15);
        } else if same_text(word, "heal") {
            self.integrity = raise(self.integrity, 15);
            self.push_memory("Integrity healed", MemoryKind::UserInteraction, 60);
        } else if same_text(word, "boost") {
            self.sync_rate = raise(self.sync_rate, 20);
            self.push_memory("Sync boosted", MemoryKind::UserInteraction, 60);
        } else if same_text(word, "sleep") {
            self.sleeping = true;
            self.push_memory("Sleep by command", MemoryKind::StateTransition, 70);
            self.event_push(Event::SleepEntered);
        } else if same_text(word, "wake") {
            self.sleeping = false;
            self.last_interaction = self.session_seconds;
            self.push_memory("Wake by command", MemoryKind::StateTransition, 70);
            self.event_push(Event::WakeUp);
        } else if same_text(word, "exit") {
            self.should_exit = true;
        } else {
            self.push_memory("Unknown command", MemoryKind::InternalEvent, 5);
        }
    }

    /// Carries out a command.
    pub fn handle_command(&mut self, cmd: &str)
        requires
            old(self).wf(),
        ensures
            final(self).wf(),
            final(self)@ == old(self)@.after_command(cmd@),
    {
        let (first, tail) = split_once_at_space(cmd);
        let word: &str = trim(first);
        let rest: &str = trim(tail);
        self.loneliness = self.loneliness.saturating_sub(10);
        self.obey(word, rest);
    }

    fn notice_user(&mut self)
        requires
            old(self).wf(),
        ensures
            final(self).wf(),
            final(self)@ == old(self)@.noticing_user(),
    {
        self.last_interaction = self.session_seconds;
        if self.sleeping {
            self.sleeping = false;
            self.event_push(Event::WakeUp);
            if self.loneliness > 40 {
                self.personality.reinforce_attachment();
                self.push_memory("Learned: user returns", MemoryKind::LearnedPattern, 90);
            }
        }
    }

    /// Takes in a line that the user typed.
    pub fn receive_line(&mut self, line: &[u8])
        requires
            old(self).wf(),
        ensures
            final(self).wf(),
            final(self)@ == old(self)@.after_line(line@),
    {
        self.notice_user();
        match str_from_utf8(line) {
            Some(cmd) => {
                proof {
                    encode_utf8_decode_utf8(cmd@);
                }
                self.handle_command(cmd);
            },
            None => {
                proof {
                    reveal_strlit("");
                    assert(""@ =~= Seq::<char>::empty());
                }
                self.handle_command("");
            },
        }
    }
}

/// The words of the commands are all different.
proof fn lemma_words_differ()
    ensures
        "msg"@ != "name"@,
        "status"@ != "name"@ && "status"@ != "msg"@,
        "memories"@ != "name"@ && "memories"@ != "msg"@ && "memories"@ != "status"@,
        "heal"@ != "name"@ && "heal"@ != "msg"@ && "heal"@ != "status"@ && "heal"@ != "memories"@,
        "boost"@ != "name"@ && "boost"@ != "msg"@ && "boost"@ != "status"@ && "boost"@
            != "memories"@ && "boost"@ != "heal"@,
        "sleep"@ != "name"@ && "sleep"@ != "msg"@ && "sleep"@ != "status"@ && "sleep"@
            != "memories"@ && "sleep"@ != "heal"@ && "sleep"@ != "boost"@,
        "wake"@ != "name"@ && "wake"@ != "msg"@ && "wake"@ != "status"@ && "wake"@ != "memories"@
            && "wake"@ != "heal"@ && "wake"@ != "boost"@ && "wake"@ != "sleep"@,
        "exit"@ != "name"@ && "exit"@ != "msg"@ && "exit"@ != "status"@ && "exit"@ != "memories"@
            && "exit"@ != "heal"@ && "exit"@ != "boost"@ && "exit"@ != "sleep"@ && "exit"@
            != "wake"@,
{
    reveal_strlit("name");
    reveal_strlit("msg");
    reveal_strlit("status");
    reveal_strlit("memories");
    reveal_strlit("heal");
    reveal_strlit("boost");
    reveal_strlit("sleep");
    reveal_strlit("wake");
    reveal_strlit("exit");
    assert("name"@.len() == 4 && "name"@[0] == 'n');
    assert("msg"@.len() == 3);
    assert("status"@.len() == 6);
    assert("memories"@.len() == 8);
    assert("heal"@.len() == 4 && "heal"@[0] == 'h');
    assert("boost"@.len() == 5 && "boost"@[0] == 'b');
    assert("sleep"@.len() == 5 && "sleep"@[0] == 's');
    assert("wake"@.len() == 4 && "wake"@[0] == 'w');
    assert("exit"@.len() == 4 && "exit"@[0] == 'e');
}

/// How a command is read: the first word up to a space is the command, what
/// follows is its argument, and white space round either does not count.
pub proof fn law_command_is_read(
    left: Seq<char>,
    word: Seq<char>,
    right: Seq<char>,
    before: Seq<char>,
    rest: Seq<char>,
    after: Seq<char>,
)
    requires
        !(left + word + right).contains(' '),
        blank(left),
        tight(word),
        blank(right),
        blank(before),
        tight(rest),
        blank(after),
    ensures
        command_parts(left + word + right + seq![' '] + (before + rest + after)) == (word, rest),
        command_parts(left + word + right) == (word, Seq::<char>::empty()),
{
    law_split_at_first_space(left + word + right, before + rest + after);
    law_trimming_leaves_the_text(left, word, right);
    law_trimming_leaves_the_text(before, rest, after);
    let nothing = Seq::<char>::empty();
    law_trimming_leaves_the_text(nothing, nothing, nothing);
    assert(nothing + nothing + nothing =~= nothing);
}

/// A line is read as the text that its bytes encode, and as nothing where they
/// encode none.
pub proof fn law_line_is_read_as_text(line: Seq<u8>, text: Seq<char>)
    ensures
        line == encode_utf8(text) ==> line_text(line) == text,
        valid_utf8(line) ==> encode_utf8(line_text(line)) == line,
        !valid_utf8(line) ==> line_text(line).len() == 0,
{
    encode_utf8_valid_utf8(text);
    encode_utf8_decode_utf8(text);
    if valid_utf8(line) {
        decode_utf8_encode_utf8(line);
    }
}

/// Loneliness is ten less, and not below zero.
pub open spec fn comforted(before: u32, after: u32) -> bool {
    &&& before >= 10 ==> after == before - 10
    &&& before < 10 ==> after == 0
}

/// `name` gives the entity the name that follows, remembers and tells of it. With
/// no name behind it, it only comforts.
pub proof fn law_name_command(s: TasyView, cmd: Seq<char>)
    requires
        s.sound(),
        command_parts(cmd).0 == "name"@,
    ensures
        ({
            let t = s.after_command(cmd);
            let name = command_parts(cmd).1;
            let bytes = encode_utf8(name);
            &&& comforted(s.loneliness, t.loneliness)
            &&& name.len() == 0 ==> t == (TasyView { loneliness: t.loneliness, ..s })
            &&& name.len() > 0 && bytes.len() <= 32 ==> t.name == bytes
            &&& name.len() > 0 && bytes.len() > 32 ==> t.name == bytes.take(32)
            &&& name.len() > 0 ==> t.events == kept(s.events.push(Event::UserRename))
            &&& name.len() > 0 ==> gained(
                s.memories,
                t.memories,
                s.session_seconds,
                "Entity renamed"@,
                MemoryKind::UserInteraction,
                70,
            )
            &&& t == (TasyView {
                loneliness: t.loneliness,
                name: t.name,
                memories: t.memories,
                events: t.events,
                ..s
            })
        }),
{
    law_recording_adds_one_memory(
        s.memories,
        s.session_seconds,
        "Entity renamed"@,
        MemoryKind::UserInteraction,
        70,
    );
    law_bus_keeps_the_first(s.events, Event::UserRename);
}

/// `msg` remembers the text that follows, tells of it, and makes the entity five
/// points more curious, up to 100. With no text behind it, it only comforts.
pub proof fn law_msg_command(s: TasyView, cmd: Seq<char>)
    requires
        s.sound(),
        command_parts(cmd).0 == "msg"@,
    ensures
        ({
            let t = s.after_command(cmd);
            let text = command_parts(cmd).1;
            &&& comforted(s.loneliness, t.loneliness)
            &&& text.len() == 0 ==> t == (TasyView { loneliness: t.loneliness, ..s })
            &&& text.len() > 0 && s.curiosity <= 95 ==> t.curiosity == s.curiosity + 5
            &&& text.len() > 0 && s.curiosity > 95 ==> t.curiosity == 100
            &&& text.len() > 0 ==> t.events == kept(s.events.push(Event::UserMessage))
            &&& text.len() > 0 ==> gained(
                s.memories,
                t.memories,
                s.session_seconds,
                text,
                MemoryKind::UserInteraction,
                50,
            )
            &&& t == (TasyView {
                loneliness: t.loneliness,
                curiosity: t.curiosity,
                memories: t.memories,
                events: t.events,
                ..s
            })
        }),
{
    lemma_words_differ();
    law_recording_adds_one_memory(
        s.memories,
        s.session_seconds,
        command_parts(cmd).1,
        MemoryKind::UserInteraction,
        50,
    );
    law_bus_keeps_the_first(s.events, Event::UserMessage);
}

/// `status` is remembered, and changes nothing else but that it comforts.
pub proof fn law_status_command(s: TasyView, cmd: Seq<char>)
    requires
        s.sound(),
        command_parts(cmd).0 == "status"@,
    ensures
        ({
            let t = s.after_command(cmd);
            &&& comforted(s.loneliness, t.loneliness)
            &&& gained(
                s.memories,
                t.memories,
                s.session_seconds,
                "Status queried"@,
                MemoryKind::UserInteraction,
                15,
            )
            &&& t == (TasyView {
                loneliness: t.loneliness,
                memories: t.memories,
                ..s
            })
        }),
{
    lemma_words_differ();
    law_recording_adds_one_memory(
        s.memories,
        s.session_seconds,
        "Status queried"@,
        MemoryKind::UserInteraction,
        15,
    );
}

/// `memories` has all memories shown, and is remembered.
pub proof fn law_memories_command(s: TasyView, cmd: Seq<char>)
    requires
        s.sound(),
        command_parts(cmd).0 == "memories"@,
    ensures
        ({
            let t = s.after_command(cmd);
            &&& comforted(s.loneliness, t.loneliness)
            &&& t.show_all_memories
            &&& gained(
                s.memories,
                t.memories,
                s.session_seconds,
                "Memories accessed"@,
                MemoryKind::UserInteraction,
                15,
            )
            &&& t == (TasyView {
                loneliness: t.loneliness,
                show_all_memories: t.show_all_memories,
                memories: t.memories,
                ..s
            })
        }),
{
    lemma_words_differ();
    law_recording_adds_one_memory(
        s.memories,
        s.session_seconds,
        "Memories accessed"@,
        MemoryKind::UserInteraction,
        15,
    );
}

/// `heal` gives back 15 points of integrity, up to 100, and is remembered.
pub proof fn law_heal_command(s: TasyView, cmd: Seq<char>)
    requires
        s.sound(),
        command_parts(cmd).0 == "heal"@,
    ensures
        ({
            let t = s.after_command(cmd);
            &&& comforted(s.loneliness, t.loneliness)
            &&& s.integrity <= 85 ==> t.integrity == s.integrity + 15
            &&& s.integrity > 85 ==> t.integrity == 100
            &&& gained(
                s.memories,
                t.memories,
                s.session_seconds,
                "Integrity healed"@,
                MemoryKind::UserInteraction,
                60,
            )
            &&& t == (TasyView {
                loneliness: t.loneliness,
                integrity: t.integrity,
                memories: t.memories,
                ..s
            })
        }),
{
    lemma_words_differ();
    law_recording_adds_one_memory(
        s.memories,
        s.session_seconds,
        "Integrity healed"@,
        MemoryKind::UserInteraction,
        60,
    );
}

/// `boost` gives back 20 points of sync, up to 100, and is remembered.
pub proof fn law_boost_command(s: TasyView, cmd: Seq<char>)
    requires
        s.sound(),
        command_parts(cmd).0 == "boost"@,
    ensures
        ({
            let t = s.after_command(cmd);
            &&& comforted(s.loneliness, t.loneliness)
            &&& s.sync_rate <= 80 ==> t.sync_rate == s.sync_rate + 20
            &&& s.sync_rate > 80 ==> t.sync_rate == 100
            &&& gained(
                s.memories,
                t.memories,
                s.session_seconds,
                "Sync boosted"@,
                MemoryKind::UserInteraction,
                60,
            )
            &&& t == (TasyView {
                loneliness: t.loneliness,
                sync_rate: t.sync_rate,
                memories: t.memories,
                ..s
            })
        }),
{
    lemma_words_differ();
    law_recording_adds_one_memory(
        s.memories,
        s.session_seconds,
        "Sync boosted"@,
        MemoryKind::UserInteraction,
        60,
    );
}

/// `sleep` sends the entity to sleep, is remembered and told of.
pub proof fn law_sleep_command(s: TasyView, cmd: Seq<char>)
    requires
        s.sound(),
        command_parts(cmd).0 == "sleep"@,
    ensures
        ({
            let t = s.after_command(cmd);
            &&& comforted(s.loneliness, t.loneliness)
            &&& t.sleeping
            &&& t.events == kept(s.events.push(Event::SleepEntered))
            &&& gained(
                s.memories,
                t.memories,
                s.session_seconds,
                "Sleep by command"@,
                MemoryKind::StateTransition,
                70,
            )
            &&& t == (TasyView {
                loneliness: t.loneliness,
                sleeping: t.sleeping,
                memories: t.memories,
                events: t.events,
                ..s
            })
        }),
{
    lemma_words_differ();
    law_recording_adds_one_memory(
        s.memories,
        s.session_seconds,
        "Sleep by command"@,
        MemoryKind::StateTransition,
        70,
    );
    law_bus_keeps_the_first(s.events, Event::SleepEntered);
}

/// `wake` wakes the entity, counts as an interaction, is remembered and told of.
pub proof fn law_wake_command(s: TasyView, cmd: Seq<char>)
    requires
        s.sound(),
        command_parts(cmd).0 == "wake"@,
    ensures
        ({
            let t = s.after_command(cmd);
            &&& comforted(s.loneliness, t.loneliness)
            &&& !t.sleeping
            &&& t.last_interaction == s.session_seconds
            &&& t.events == kept(s.events.push(Event::WakeUp))
            &&& gained(
                s.memories,
                t.memories,
                s.session_seconds,
                "Wake by command"@,
                MemoryKind::StateTransition,
                70,
            )
            &&& t == (TasyView {
                loneliness: t.loneliness,
                sleeping: t.sleeping,
                last_interaction: t.last_interaction,
                memories: t.memories,
                events: t.events,
                ..s
            })
        }),
{
    lemma_words_differ();
    law_recording_adds_one_memory(
        s.memories,
        s.session_seconds,
        "Wake by command"@,
        MemoryKind::StateTransition,
        70,
    );
    law_bus_keeps_the_first(s.events, Event::WakeUp);
}

/// `exit` asks for the end, and changes nothing else but that it comforts.
pub proof fn law_exit_command(s: TasyView, cmd: Seq<char>)
    requires
        command_parts(cmd).0 == "exit"@,
    ensures
        ({
            let t = s.after_command(cmd);
            &&& comforted(s.loneliness, t.loneliness)
            &&& t.should_exit
            &&& t == (TasyView { loneliness: t.loneliness, should_exit: t.should_exit, ..s })
        }),
{
    lemma_words_differ();
}

/// Any other word is remembered as an unknown command, and changes nothing else
/// but that it comforts.
pub proof fn law_unknown_command(s: TasyView, cmd: Seq<char>)
    requires
        s.sound(),
        command_parts(cmd).0 != "name"@,
        command_parts(cmd).0 != "msg"@,
        command_parts(cmd).0 != "status"@,
        command_parts(cmd).0 != "memories"@,
        command_parts(cmd).0 != "heal"@,
        command_parts(cmd).0 != "boost"@,
        command_parts(cmd).0 != "sleep"@,
        command_parts(cmd).0 != "wake"@,
        command_parts(cmd).0 != "exit"@,
    ensures
        ({
            let t = s.after_command(cmd);
            &&& comforted(s.loneliness, t.loneliness)
            &&& gained(
                s.memories,
                t.memories,
                s.session_seconds,
                "Unknown command"@,
                MemoryKind::InternalEvent,
                5,
            )
            &&& t == (TasyView { loneliness: t.loneliness, memories: t.memories, ..s })
        }),
{
    law_recording_adds_one_memory(
        s.memories,
        s.session_seconds,
        "Unknown command"@,
        MemoryKind::InternalEvent,
        5,
    );
}

/// A user who comes is an interaction. They wake a sleeping entity, which tells
/// of it; one whose loneliness was above 40 in its sleep becomes one point more
/// attached, up to 100, and remembers that the user returns. Nothing else
/// changes.
pub proof fn law_user_is_noticed(s: TasyView)
    requires
        s.sound(),
    ensures
        ({
            let t = s.noticing_user();
            let missed = s.sleeping && s.loneliness > 40;
            &&& t.last_interaction == s.session_seconds
            &&& !t.sleeping
            &&& s.sleeping ==> t.events == kept(s.events.push(Event::WakeUp))
            &&& !s.sleeping ==> t.events == s.events
            &&& missed && s.personality.attachment < 100 ==> t.personality.attachment
                == s.personality.attachment + 1
            &&& missed && s.personality.attachment >= 100 ==> t.personality.attachment == 100
            &&& missed ==> t.personality.curiosity == s.personality.curiosity
                && t.personality.aggression == s.personality.aggression && t.personality.optimism
                == s.personality.optimism
            &&& missed ==> gained(
                s.memories,
                t.memories,
                s.session_seconds,
                "Learned: user returns"@,
                MemoryKind::LearnedPattern,
                90,
            )
            &&& !missed ==> t.personality == s.personality && t.memories == s.memories
            &&& t == (TasyView {
                last_interaction: t.last_interaction,
                sleeping: t.sleeping,
                personality: t.personality,
                memories: t.memories,
                events: t.events,
                ..s
            })
        }),
{
    law_recording_adds_one_memory(
        s.memories,
        s.session_seconds,
        "Learned: user returns"@,
        MemoryKind::LearnedPattern,
        90,
    );
    law_bus_keeps_the_first(s.events, Event::WakeUp);
}

/// A line does what noticing the user and then the command in it do; the bytes of
/// no text are taken as an empty command.
pub proof fn law_line_is_a_command(s: TasyView, line: Seq<u8>, cmd: Seq<char>)
    ensures
        line == encode_utf8(cmd) ==> s.after_line(line) == s.noticing_user().after_command(cmd),
        !valid_utf8(line) ==> s.after_line(line) == s.noticing_user().after_command(Seq::empty()),
{
    law_line_is_read_as_text(line, cmd);
}

} // verus!
