# vocawin

The decision logic of VocaWin, a Windows tray app for voice typing, written
in Verus. Every function in `src/` carries a contract. Verus proves them all
except a handful of small wrappers around std and outside crates (marked
`#[verifier::external_body]`), whose contracts are taken as given and say
in their doc comments what they assume.

## Layout

- `src/` — the verified library.
  - `text` — character-sequence helpers and their lemmas (trim, split,
    search, decimal numbers) that the other modules build on.
  - `hotkey`, `hook` — the shortcut grammar, presets and canonical
    spelling; the keyboard hook's press/release matching.
  - `session`, `overlay`, `live_preview`, `power` — what a press, a
    release, Escape, a watched app or a wake does to a dictation session;
    the pill's state; the tray and runtime card.
  - `output`, `transcript`, `hinglish`, `vocabulary` — what is typed:
    transcript cleanup, decoding a take window by window, script
    filtering, the model's vocabulary prompt.
  - `models`, `gpu`, `machine`, `devices` — the model catalog and
    packages, language choice, adapter choice, the Debug report.
  - `settings`, `sounds`, `autostart`, `autopause`, `gateway`, `logbuf` —
    saved settings and their checks, cue themes and tone headers, the
    registry entries for launch at login, the auto-pause watch list, the
    local gateway's files and status, the in-memory log.
- `tests/` — tests of the library on concrete values.
- `app/` — the I/O around the library: processes, files, the clock,
  floating-point settings and tone synthesis, and the JSON copies of the
  library's types.

Public proof functions named `law_*` state properties that hold across
calls, such as that a token written to the gateway's `.env` file reads back,
or that a canonicalized shortcut parses to the shortcut it came from.
