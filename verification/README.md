# file_transfer

Packs folders into ZIP archives and moves them to a destination — a local or
mounted directory, or a remote directory over SSH/SFTP. Each folder becomes
`<folder>_YYYY-MM-DD_HHMMSS.zip`; the archive is written to a staging file
first and appears at the destination only when complete.

## Layout

- `src/` — the verified library (Verus):
  - `zip.rs`: the ZIP container layout, its writer, and the proof that a
    reader finds every entry as written;
  - `archive.rs`: entry names, per-file CRC-32 and raw-deflate compression,
    assembly of the archive with its size limits;
  - `naming.rs`: timestamps and archive names;
  - `engine.rs`: the per-job pipeline as a state machine, with its laws;
  - `registry.rs`: job identifiers and cancel flags;
  - `transfer.rs`: destination backends (staging paths, overwrite refusal,
    remote directory chain, host key verdict, credentials);
  - `checksum.rs`, `secret.rs`, `model.rs`, `error.rs`, `paths.rs`, `text.rs`.
- `app/` — the desktop program: the GUI, the worker threads that run the
  pipeline's actions, file system and SSH work.
- `tests/` — tests of the library.

Limits: standard ZIP without ZIP64 (files and archives under 4 GB, at most
65535 entries); empty directories are not kept.
