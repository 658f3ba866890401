# acscan

Signature scanning for a game overlay, verified with Verus.

- `src/pattern.rs` — text patterns such as `8B 0D ? ? 46` and the search for
  their first occurrence in a byte image.
- `src/image.rs` — a process as plain values (modules with name, base and
  image bytes), little-endian reads and module lookup.
- `src/sigscan.rs` — signatures, the scan that resolves one to an address,
  and the laws that relate scans.
- `src/signatures.rs` — the signatures of the game's values.
- `src/overlay.rs` — the overlay's addresses, entity list and player names.
- `app/` — process access through `/proc`, floating-point projection and the
  tauri front end.
