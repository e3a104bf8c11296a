# cli_tool

A file-transfer tool written as a Verus library with a thin command-line front end.

- `src/cli.rs` reads the command line (`send <ip:port> <file>...`, `receive <port>`).
- `src/files.rs` describes each file to send (name, size, extension).
- `src/crypto.rs` derives the transfer key with Argon2id, encrypts and decrypts with
  XChaCha20-Poly1305, and makes the random transfer password.
- `src/frame.rs` writes and reads the 64-byte size header (the size in its first eight bytes, least
  significant first) and steps the counter nonce.
- `src/sender.rs`, `src/receiver.rs` are the two sides' state machines: each step takes
  what the network or disk gave and returns the next state.
- `app/` does the network and disk work, serialises metadata with postcard, and gives
  the errors their messages.
