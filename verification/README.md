# minewars

The verified core of MineWars, a multiplayer strategy game built on
Minesweeper: hex and square grids and their storage layouts, player ids,
game events and their binary and text message encodings, the replay and map
file formats, abuse detection, fog of war, flood fill and reachability, and
the choice of 3D tile assets.

- `src/` is the library, written in Verus: every function carries a
  contract that the verifier proves, and the laws that relate several
  functions (encodings that read back what was written, index maps that are
  bijections, detectors whose verdicts only escalate) are stated as proof
  functions beside them. Calls into `seahash`, `lz4_flex`,
  `morton-encoding` and `rand` go through the small trusted wrappers in
  `src/deps.rs` and `src/gfx3d.rs`.
- `app/` holds what the verifier does not take: floating-point coordinate
  conversions, the loops that run caller closures with state, file reading,
  and clock-driven abuse detectors.
- `tests/` runs the library on concrete values.
