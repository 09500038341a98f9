# crypt_split

A file is encrypted with AES-256-GCM-SIV under a fresh data-encryption key,
cut into 4 KiB chunks that are chained by their hashes, and the chunks can be
moved to randomly chosen local cloud folders. The data-encryption key is
wrapped (AES key wrap) with a key-encryption key that scrypt derives from a
password; a salt and an HMAC tag of that key are kept in a key file. File
metadata is kept in Redis. A chunk's file is named
`chunkhash_previoushash_pathhash`, where `pathhash` is the SHA-256 of the
path of the folder that holds it; all three are 64 hex digits, so each part
starts at a known position, and moving a chunk renames it.

Layout:

- `src/` — the verified library.
  - `crypto.rs`: the cryptographic primitives and randomness used, with their trusted contracts.
  - `hex_codec.rs`: hexadecimal text, and the proof that decoding inverts encoding.
  - `key_management.rs`: key derivation, key file content, unlocking, key wrapping.
  - `split.rs`: encryption and chunking, reconstruction, and their round-trip proof.
  - `cloud.rs`: random distribution of chunks over configured folders.
  - `metadata.rs`: the Redis record of a file (key, fields, reading back).
  - `cli.rs`: the encrypt/distribute/reconstruct workflows and the end-to-end round trip.
  - `text.rs`, `error.rs`: text helpers and the error type.
- `app/` — the command-line program: prompts, files, Redis, JSON.
- `tests/` — tests of the library.
