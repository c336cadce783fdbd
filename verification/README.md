# matrixkit

The logic of the MatrixKit desktop apps — bar, dock, file manager, settings, login screen,
notifications, sounds, two-factor codes, installer and the smaller tools — as a library
verified with Verus.

- `src/` is the verified library. Each module holds one app's decisions: the parsers of
  what the system reports (`lsblk`, `wpctl`, `nmcli`, `ip`, `/etc/passwd`, session files),
  the state machines of the windows (an update takes an event and returns the new state
  and what the system is asked to do), and the texts shown. Contracts speak of spec
  functions over sequences; the laws the apps promise (a move back and forth in a history
  returns to the same place, a saved file loads back, the tiles keep pins first, a sorted
  list is in order, a sound switched off stays silent, …) are public proof functions.
  `text` holds the shared character-sequence rules, `sha1`, `base32` and `totp` the code
  generator, `json` the trusted calls into serde_json, and a few trusted wrappers name what
  `std` computes on paths and letter case.
- `tests/` runs the library on concrete values.
- `app/` is the command-line side around it: the sound daemon and sound synthesis, the
  login conversation with greetd, the code list, the USB key tool, the clipboard history
  and the system facts. It reads files, runs commands and talks to sockets; every decision
  is the library's.
