# dribble

A peer-to-peer file transfer between two desktops, with no signaling
server: each peer copies a code (its session description in unpadded
base64) to the other by hand.

- `src/` is the verified library (Verus):
  - `codec`: base64 through the `base64` crate, UTF-8 checks, trimming;
  - `signaling`: the session codes, the answer decision and the ordered
    connection set-up steps;
  - `sender`: the announcement and chunk frames and how a file is sliced;
  - `header`: reading announcements and chunk payloads;
  - `receiver`: the receiver's progress state machine;
  - `ui`: the pages and what each button does;
  - `commands`: start-up and revealing the folder of received files.
- `tests/` runs the library on concrete values.
- `app/` is the desktop program: JSON requests on standard input, files on
  disk, events on standard output.
