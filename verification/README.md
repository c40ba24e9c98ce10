# ClipWallet

A persistent, encrypted clipboard manager for macOS: nine addressed slots
(static mode) or a recency-ordered ring (dynamic mode), driven by
Cmd+Opt chords, with a disk store, large payloads spilled to blob files, and
an AES-256-GCM vault.

## Layout

- `src/` — the library, verified with Verus. Every decision the daemon
  makes lives here with its contract: the store (`ram`), chord detection
  (`chord`) and the key listener's tiers (`tap`), what each hotkey action
  does (`engine`), clipboard capture and write-back (`clipboard`, `mime`),
  spilling and blob collection (`spill`), the on-disk envelope, flush and
  load (`disk`), vault records and the Keychain key format (`vault`), file
  names (`names`), configuration (`config`), notification and status texts
  (`notify`, `preview`, `status`), the launchd plist (`launchd`) and prompt
  answers (`answers`). Properties that span several operations are stated
  as proof functions named `lemma_*`.
- `tests/` — tests of the library on concrete values.
- `app/` — the program around it: command line, file and Keychain I/O,
  the CoreGraphics event tap and keystroke injection, NSPasteboard and
  arboard access, notifications, and the async service loop.
