# exthack

An external tool for a 32-bit game: it finds the game process and its
modules, then in a loop forces jumps while the space bar is held, makes
every player glow (enemies red, team mates blue), and turns the view to the
nearest eligible enemy's head while the left button is held.

- `src/` is the verified library (Verus). `game` holds the routines as a
  state machine: each step takes the outcome of the last memory read, write,
  key query or floating-point computation and returns the next one to carry
  out. `laws` states what whole runs may write, and what a run answered from
  a fixed memory (where reads may fail) does: it glows every listed player,
  and a second run repeats the first. `player` decodes the player
  record, `bytes` the little-endian values and 32-bit address arithmetic,
  `names` matches UTF-16 image names and picks the first that holds a name, `dump` reads the offset dump
  (`csgo.cs`) and `layout` plans the player record from its network
  variables and fills its source skeleton.
- `app/` is the Windows program around it: process and module lookup and
  memory access through the Windows API, key state, and the floating-point
  distance and angle computations.
- `tests/` runs the library on concrete values.

Usage: `exthack [csgo.cs]`, or `exthack struct csgo.cs skeleton.txt
player_struct.rs` to write the player record source from a skeleton holding
`pls_skeleton` and `default_skeleton`.
