# biology

The logic of a small Bevy game with a chunked tile map, written in Verus.

- `src/` is the verified library:
  - `coords`: chunk and tile coordinates, and the chunk distance (Chebyshev:
    the larger of the two coordinate differences);
  - `rings`: the order in which the chunks around a chunk are enumerated, ring by
    ring, and the laws about it (count, exact coverage of the square, no repeats,
    mutual neighbourhood, every neighbour within the distance asked for);
  - `terrain`: the square tile layout (tile to chunk, tile to map position and
    world coordinates, map position back to tile, chunk neighbours, chunk
    distance) and verified checks of the layout's overflow preconditions;
  - `tilemap`: chunk sites and the decision of which chunks to load around them;
  - `debug`: the debug console (running a command line, toggling the console);
  - `main_menu`: what the start button does for each pointer interaction.
- `app/` is the Bevy program around it: windows, egui panels, UI entities, and
  the one floating-point step of the layout (dividing a world position by the
  tile size).
- `tests/` exercises the library on concrete values.

Not carried over:
- the noise terrain generator (`TerrainGenerator`, `DefaultNoiseGenerator`): it
  is floating point throughout, names voxel types that exist nowhere, and is not
  part of the program's module tree;
- `TileManager::try_spawn_chunk`: it had no implementation (its body only
  panicked), so the chunk spawner in `app/` reports the chunks it would spawn
  and spawns none.
