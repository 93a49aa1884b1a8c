# gearbox

The verified core of a small ECS renderer's CPU side, written in Verus.

- `src/packing.rs` — the shelf packer of a growable texture atlas page, with the
  proof that placed rects never overlap and never move.
- `src/shapes/` — triangle index lists of the primitive shapes (cube, cylinder,
  cone, capsule), icosphere subdivision topology with shared edge midpoints, and
  merging of several shapes' mesh data; every generated index names a vertex.
- `src/vault/` — the asset-vault load pipeline (pending → staged → resident,
  each content hash in one stage at a time, identical content loaded once), slot
  storage for uploaded textures, the atlas vault's upload step, reference-counted
  handles, asset content and texture decoding.
- `src/camera.rs` — framebuffer keys and when a framebuffer is recreated.
- `app/` — the unverified rest: floating-point vertex generation and transforms,
  file and network I/O, and thread-safe vaults around the verified state.
- `tests/` — tests of the library.
