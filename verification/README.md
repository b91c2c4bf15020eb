# kitchen_fire

The rules of a small top-down game in which the player fights kitchen fires
with a stuck fire hose, as a Verus-verified library, plus the Bevy program
that runs it.

- `src/` — the verified library:
  - `collisions`: what the collisions of a frame do (bubbles vanish, fires are
    put out and score, the player starts or stops burning, furniture is
    knocked over and may start fires) and how burning costs health;
  - `contacts`: the set of fires the player touches;
  - `timer`: repeating and one-shot timers in nanoseconds, ticked through
    `bevy_time`;
  - `hud`: score, health and the HUD texts;
  - `player`: fire hose state and movement input;
  - `procgen`: furniture kinds and the room grid walk;
  - `fire`: the flame mesh's triangle fan, colour picks and flame flicker.
- `app/` — the Bevy/Avian game: input, physics messages, spawning, floating
  point movement and noise, all calling into the library for the rules.
- `tests/` — tests of the library.
