# liminal

The world rules of a liminal-space exploration game, written in Verus.

- `src/world`: the block catalogue (names, opacity, visibility, emitted
  light, mesh style, random block choice) and chunk storage.
- `src/visual`: light levels.
- `src/terrain`: the biome generators that lay blocks into a chunk, and
  `form_chunk`, which picks the biome (chunks in the spawn area are always
  classed as empty-dark) and runs its generator where this library has one;
  the parkour, dark maze and empty dark generators are not part of it, and
  chunks of those biomes keep their blocks.
- `src/engine`: face neighbours, the sound catalogue rules, and the thin
  wrappers over `rand`.
- `src/liminal.rs`: the discrete state of a play session and how a frame's
  key presses and clicks change it.
- `app/`: the floating-point side (noise sampling, biome classification,
  model transforms, head bobbing, audio playback) and a command-line entry
  point that generates the chunks around the spawn area.
