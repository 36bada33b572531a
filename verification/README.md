# ober

A two-deck DJ mixer whose decision logic is a Verus-verified library.

- `src/` — the verified library `ober`: controller mappings and their
  validation, MIDI → action translation (shift layer, toggles, relative
  encoders), routing of control events to the audio engine, LED feedback
  diffing, controller hot-plug scans, the vinyl cue transport of a deck,
  the output device choice and stream attempt plan, track buffers and
  stereo layout, the library browser cursor and directory listings, the
  on-screen buttons, and the idle power state machine. Every public function carries a contract;
  public `lemma_*` proof functions state the laws that span several calls.
- `tests/` — tests of the library on concrete values.
- `app/` — the program around it: audio output (cpal), MIDI I/O (midir),
  decoding (symphonia, rubato), signal processing and analysis (rustfft),
  the mapping file format (serde, ron), and a terminal shell.

Real-valued quantities (samples, gains, curve values in dB, jog dynamics)
are computed in `app/`; the library carries them as opaque values where
its decisions need to pass them on.
