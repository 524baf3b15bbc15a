# ronincraft

The rules of RoninCraft, a voxel sandbox game, as a library whose behaviour
is stated in contracts and proved with Verus, and the Bevy game around it.

## Layout

- `src/` — the verified library:
  - `voxel`, `chunk`: block kinds, the 16×128×16 chunk store, block ids and
    the byte form of a chunk, world-to-chunk coordinates, surface search.
  - `terrain`: column layering from integer heights, tree growth.
  - `meshing`: one quad per visible face, with exact vertex and index data.
  - `chunk_manager`: which chunks to generate and which to unload.
  - `item`, `inventory`, `hotbar`, `crafting`: stacks, the 36-slot inventory
    (merging and filling), hotbar selection, recipes and the 2×2 grid.
  - `block_interaction`: breaking and placing blocks against the inventory.
  - `gadget`: the shape-shifting gadget's forms and their statistics.
  - `mobs`: per-frame behaviour decisions of zombies, skeletons and pigs.
  - `states`: menu screens and what their buttons and the escape key do.
  - `save`: item tags and the inventory's saved form.
  - `sound`: the noise generator and WAV framing of 16-bit samples.
- `tests/` — tests of the library on concrete values.
- `app/` — the game: Bevy systems, rendering, input, audio, file I/O, noise
  sampling and everything that works in floating point. It calls the
  library for every rule above.
