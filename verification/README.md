# vanguard

The verified core of the Vanguard engine, written in Verus.

- `src/scene_node.rs`: the scene hierarchy as an arena of nodes; creating
  nodes and attaching children keep every parent link mirrored in the
  parent's child list.
- `src/perception.rs`: the semantic entries (node name, anchor name) of the
  agent's perception view.
- `src/world_partitioning.rs`: which voxel cells are loaded around the
  player, which leave the player's vicinity and are unloaded, and whether a
  cell the player enters has to be hydrated.
- `src/render_graph.rs`: the wiring of the path tracer's passes (temporal
  ping-pong, à-trous denoise chain, upscale), the denoise step widths and the
  workgroup counts.
- `src/frame.rs`: viewport extent, the accumulation counter, and the sliding
  window of recent frame times.
- `src/screenshot.rs`: readback row layout and removal of row padding.
- `src/texture.rs`: decoding a PNG image (through the `image` crate) into the
  layout of a texture upload.
- `src/input.rs`: the main loop's input state machine.
- `src/task_graph.rs`: job kinds of the task graph.

`app/` holds the program around the library: the window and event loop, the
wgpu renderer and egui overlay, the tokio job queue, and the parts that are
floating-point arithmetic (inverse kinematics, prone movement, the voxel
under the player, frame-time statistics). Shaders and the snow texture are
read at start-up from `shaders/` and `psx_snow_cube.png`.
