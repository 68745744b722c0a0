# lattice_engine

Deterministic simulation rules for a colony game, with their behaviour stated
as contracts and proved with Verus.

## Layout

- `src/` — the verified library.
  - `settler/` — task definitions, settlers, tasks, reservations, events and the
    settler manager (task creation, greedy assignment rounds, work, blockers,
    cancellation, incapacitation, snapshots, fingerprints).
  - `social/` — identifiers, fingerprints, betrayal incidents and their tracker,
    diplomatic stances, relations, treaties and the diplomacy tracker, panic
    events, cascades and their tracker, trends and stance counts.
  - `sensor.rs`, `territory_pressure.rs`, `audio/` — identifiers and
    classifications of perception, territory and audio, and the order of the
    layers of a music mix.
  - `checksum.rs`, `id_table.rs`, `keys.rs`, `ordered.rs`, `text.rs` — byte
    encodings and checksums, vectors kept sorted by number or by text key,
    ordered sets, and text forms.
- `tests/` — tests of the library.
- `app/` — the host around the library: the fractional parts of the simulation
  (skills, priority scores, positions, trust, morale, panic levels, betrayal
  risk, perception, music volumes, sound occlusion) and the saved forms of
  snapshots.

Sound occlusion through materials is computed in `app/occlusion.rs`, with
`glam` vectors. Not carried over: the territory-pressure and nest trackers and
reverb-zone sampling. They compute with fractional magnitudes and 3-D vectors
throughout and depend on faction and audio-engine modules that are not part
of this crate; only their identifiers and classifications are kept in `src/`.

The manager's fingerprint is tied to vstd's specification of the standard
library's `DefaultHasher` (the byte strings written, then `finish`). The only
trusted item of this crate is the specification of `crc32fast::hash` in
`src/checksum.rs`: its result is named, not described.
