# code_termination

The rules of Code-Termination, a 2D arcade game, as a library verified with Verus,
and the bevy game around it.

- `src/` — the verified library:
  - `text.rs`: the string operations the game's texts and messages are built from
    (trimming, splitting in words, decimal numbers, replacing), with their specifications;
  - `weapon.rs`: the weapon designer (stat budget, names, bullet colours);
  - `arena.rs`: the battle arena (enemy spawns, power-up drops, collisions, scores, integrity);
  - `stun.rs`: the STUN binding request and the reading of the server's answer;
  - `netplay.rs`: rooms, the room registry's replies, the join screen's input, the
    datagrams exchanged during play;
  - `menu.rs`: menu navigation and the multiplayer and DLC screens' decisions;
  - `profile.rs`: username entry and the user identifier;
  - `resources.rs`: the game's state records.
- `tests/` — tests of the library on concrete values.
- `app/` — the game itself: bevy screens and systems, file storage, the UDP socket and
  the `curl` calls, and the floating-point motion and effects.
