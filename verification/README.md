# fast3d

The display-list logic of an N64 high-level RCP emulator, with its behaviour stated in
Verus contracts and proved.

## Layout

- `src/` — the verified library.
  - `consts`, `gbi` — GBI opcodes and flags; per-microcode constant sets (F3DEX2, F3D) and
    microcode detection by ucode hash.
  - `mem` — a borrowed RDRAM image: segment resolution, big-endian reads, commands,
    fixed-point matrices.
  - `interp` — command fields and the display-list walk: calls, branches, returns, the
    dispatch cap, and the control decision of each command. `interp::walk` is one step of
    the interpreter: it reads the command at the walk's position, dispatches RDP commands,
    diagnoses unknown and unsupported opcodes once each, decodes rectangle continuation
    words, drops draws before the first color image, and hands geometry commands and
    rectangles to the caller, which runs the floating-point geometry layer.
  - `rdp` — the RDP register file and every RDP command's effect on it, texture loads
    included (`execute_rdp`).
  - `rsp` — RSP state: geometry mode, other-mode writes, light and look-at bookkeeping,
    the modelview stack.
  - `blender`, `combiner`, `texdec`, `tile_sampling` — render-mode and combiner decoding,
    the draw-time combiner check and material builder (`build_material`,
    `build_rect_material`), texture format decoding, and the per-draw tile sampling state.
  - `texture_request` — texture requests, their identity preimage and XXH3 content key.
  - `scene` — the 2D side of a frame's scene: framebuffer pairs opened lazily by the first
    draw after a color or depth image change, scissor changes within a pair, and rectangle
    ops with their deduplicated materials and render modes.
  - `capture` — recording the memory a task reads, replaying it, and the capture container
    format (`capture::format`), whose reader is proved to give back what the writer wrote.
- `tests/` — scenario tests over the public API.
- `app/` — host glue: the GPU-uniform layout of `TileSampling`, displayable capture errors,
  float matrices, raw reads of native host memory for recording, and the interpreter loop
  (`interpret`), which alternates `interp::walk` steps with a geometry layer supplied by
  the caller and records rectangles in a `scene::Scene`.
