# atic_desktop

The decision-making core of the Atic desktop shell: the launcher's index,
ranking and recents, snippet and note stores, the paste queue, recording
retention, shortcut and mouse-binding parsing, window placement on the
monitor layout, tray and status labels, and the small pure rules around
transcription, summaries, mail and lyrics.

Everything under `src/` is written in Verus and proved against its
`requires` / `ensures` contracts. Public proof functions (`lemma_*`) state
properties that span several calls, such as the paste queue never growing
past its cap or a touched recent ending up once, in front.

Layout:

- `src/` — the verified library, one module per area. Calls into outside
  crates (`uuid`, `chrono`, `base64`, `image`) and the few std functions that
  vstd does not specify sit behind small `#[verifier::external_body]`
  wrappers whose contracts are documented next to them.
- `tests/` — ordinary Rust tests that exercise the library on concrete
  values.
- `app/` — a thin command server around the library: argument handling,
  file storage, JSON (serde) copies of the library's types, and reading the
  platform reports that the library's functions take as plain values.
