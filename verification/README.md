# tincan

Serverless peer-to-peer voice and text chat for the terminal, with its logic proved
by Verus.

- `src/` is the library, every function of it verified: the room's state and its
  invariants (`room.rs`), the wire framing and voice header (`proto.rs`), the password
  proof (`auth.rs`), the invite code (`invite.rs`), the coordinator's and the client's
  decisions (`net/`), the jitter buffer and device choice (`audio/`), and the interface:
  its state machine, key handling, layout and every row it draws (`ui/`).
- `app/` is the program around it: the command line, the network endpoints, the audio
  streams and codec, the terminal, and the floating-point signal processing. It hands
  the library plain values and carries out what the library decides.
- `tests/` runs the library on concrete values.

Calls into outside crates that compute (Argon2id, constant-time comparison, base32,
random bytes, display widths, local time) stand in `src/` behind small trusted
wrappers whose contracts say what those crates document.
