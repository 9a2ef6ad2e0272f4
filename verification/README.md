# gur

The GUR 2D game engine and its first game, *The Ashlands*, with the engine's
deterministic core verified by Verus.

- `src/` — the verified library: the per-type event bus, the frame clock, the
  stage scheduler, the plugin registry, narrative state and dialogue lookup,
  the dev console and inspector, the asset cache, input actions and bindings,
  the combat action queue and stat modifier stacks, hitboxes, the zone
  registry and spatial grid, save-slot paths, the data registry, the Ashlands
  tile map with its collision and view culling, the player's and enemies'
  state machines, and the keyboard controls. Each public function carries a
  contract, except the wall-clock timestamp, of which nothing can be promised;
  laws that span several calls are proof functions next to the code they are
  about.
- `tests/` — tests of the library on concrete values.
- `app/` — the program around it: the winit window and loop, the wgpu
  renderer, kira audio, rapier physics, file I/O for saves and data files,
  the ECS world, and everything measured in floating point (positions,
  timers, stats, colors).
