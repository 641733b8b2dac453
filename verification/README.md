# focusrite_watch

A verified library, with a small program around it, for two jobs:

- decoding inotify event masks into event kinds (`src/events.rs`), and reporting an event's
  flags and cookie as text;
- modelling Focusrite Control device profiles (`src/focusrite.rs`), including the Unix-timestamp
  encoding their `timestamp` attribute uses (`src/compat.rs`, with numerals in
  `src/numerals.rs`).

`app/` holds the program that watches `/dev/snd` and logs each event, and the serde forms of the
profile types.
