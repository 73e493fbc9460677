# RustPass

A local password manager. The vault is one SQLite file that holds encrypted blobs and search tokens;
the key is derived from a master password and lives in memory only while the vault is unlocked.

- `src/` is the library, written and verified in Verus. `crypto` derives the key and encrypts single
  values, `entry` and `vault` put them together to entries and a vault, `ui` is the state of the
  window and how it answers the user, `clipboard` decides when a copied password is cleared.
  `buffer` and `secret` hold passwords while they are typed. `cipher`, `encoding`, `text`, `secret`
  and `wipe` hold the calls into other crates, with what is relied on of each.
- `app/` is the desktop program around it: the database, the clipboard, the clock and the window.
- `tests/` runs the library on concrete values.

A stored value is the base64 of a 12-byte nonce, a colon and the base64 of the AES-256-GCM
ciphertext. The key is the Argon2id tag of the master password (64 MiB, 3 passes, 4 lanes). A site is
indexed by a token of its lower-case name, under a key that is itself derived from the vault's key.
