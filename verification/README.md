# voxnote_core

The core of VoxNote, a meeting-notes application: transcript handling,
summarisation prompts, retrieval, model management, encryption and
device synchronisation.

- `src/` is the library, written in Verus.  Every function there is
  verified against its `requires`/`ensures` contract; the data it works on
  is modelled with spec functions and views (`Seq<char>` for text,
  `Seq<u8>` for bytes).  Calls into outside crates (SHA-256, Argon2id,
  ChaCha20-Poly1305, chrono, uuid, JSON vocabulary parsing with
  serde_json, a few `std` calls) go through small
  trusted wrappers whose contracts are documented where they stand.
  Public proof functions state the library's laws: overlapping audio
  windows, longest-first vocabulary replacement, chunk coverage, registry
  lookups, usage accounting, status round trips and more.
- `tests/` exercises the library from outside.
- `app/` is ordinary Rust around the library: audio devices and signal
  processing on floating-point samples, speech and language-model engines,
  HTTP services, SQLite storage, the WebSocket synchronisation loop and
  serializable copies of the library's records.
