# contrapunk

Real-time MIDI harmony generation: a melody note comes in, harmony voices
come out. The library in `src/` holds the musical logic with Verus
contracts and proofs; `app/` is the command-line program around it (MIDI
ports, TCP server and client, audio-thread code on floating-point values).

## Library layout (`src/`)

- `harmony/` — keys, scale modes and scales; the harmony modes (parallel
  thirds and fourths, random intervals below, contrary motion,
  note-against-note counterpoint); voice leading (styles, rules, the
  revoicing search); functional harmony (chord tables, Markov state
  indexing, Bach SATB voicing); the harmony engine that chains voices,
  shifts octaves and tracks which notes each Note On produced; key naming
  and the integer side of note suggestion (context snapshot, term grades,
  fretboard positions).
- `humanize/` — note humanization (random velocity, jitter, swing,
  extension, and the matching Note-Off delay), metronome clicks and
  count-in, groove presets, beat and subdivision crossings.
- `server/` — the length-prefixed wire protocol, server settings and the
  per-client session logic.
- `midi_wire.rs` — MIDI channel messages encoded and decoded with `wmidi`.
- `midi/`, `router.rs`, `midi_defaults.rs` — port choices, where each voice
  of a chord is sent, and saving device selections by name.
- `plugin_host/` — plugin bundle descriptors and the MIDI event ring that
  drops its oldest event when full.
- `preset/`, `slide.rs`, `synth/` — preset lists and selection, slide
  slots, synth parameters, event queue and voice allocation.

Laws that span several functions are public proof functions next to the
functions they relate (for example `lemma_read_written`,
`lemma_note_off_releases_note_on`, `lemma_ring_keeps_newest`,
`lemma_counterpoint_no_parallels`).
