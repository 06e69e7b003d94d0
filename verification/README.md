# eiviz (verified core)

The control and planning core of a multi mixing-unit vision mixer, written
in Verus. The functions in `src/` carry contracts that Verus proves, except
the few small wrappers around `std`, `uuid` and `serde_json` calls (marked
`#[verifier::external_body]`), whose contracts are trusted and say in their
doc comments what they claim of the outside call.

- `src/domain` — the project model (inputs, scenes, mixing units, outputs,
  multiviews, audio matrix), its validation and the mixing graph's cycle check.
- `src/session` — the canonical session document: validation, edits and
  collaborative mutations, the revisioned store, the reconcile planner that
  turns one session into another on the mixer, the on-disk container, and
  the mapping between the stored session messages and the document (what a
  stored session reads back as, which stored values are refused, and that a
  read session is written back unchanged).
- `src/service.rs` — the control service: request deduplication, the
  readiness gate, atomic session replacement and the event stream.
- `src/render.rs`, `src/pool.rs`, `src/gpu.rs` — render plans, the bounded
  pool of reusable GPU allocations and adapter admission.
- `src/video_trigger.rs`, `src/media_file.rs`, `src/decklink.rs` — video
  transport follow-up, file playback timelines and DeckLink timing.
- `app/` — host glue that needs floating point, the filesystem or locking.
- `tests/` — scenario tests against the library.
