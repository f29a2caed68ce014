# TASY

TASY (Tiny Autonomous Sentient Yield) is a small entity that lives on a
microcontroller. It has a body (sync, energy, integrity, a heart rate), feelings
(stress, loneliness, curiosity, stability, a mood), a memory, a personality that
lasts, and a console on which its user can talk to it.

- `src/` is the entity: its rules, its console and the image that is saved of it,
  with contracts that Verus proves. `entity.rs` holds the state and its view; each
  of the other modules says what one activity makes of the view, and does it.
  `laws.rs`, and the functions named `law_*` beside what they speak of, state what
  holds of the entity as a whole.
- `tests/` runs it on concrete values.
- `app/` is the firmware for an ESP32-C3: peripherals, timers, flash and serial
  line.

## Commands

    name <text>   give the entity a name
    msg <text>    leave a message in its memory
    status        draw the screen
    memories      draw the screen with all memories
    heal          restore integrity
    boost         restore sync
    sleep, wake   send it to sleep, or wake it
    exit          save and stop
