# codenotch (verified core)

The decisions and decoders behind the Windows usage notch's Cursor cell, start-at-sign-in
switch and self-update, written in Verus with their contracts proved.

- `src/json.rs` — a JSON model of the replies (numbers kept as serde_json holds them), its
  view, member lookup, the serde_json parse, and the redaction used by the self-diagnosis.
- `src/token.rs` — base64url without padding and the `sub` claim of the editor's JWT.
- `src/cursor.rs` — usage-summary and Grok Bot replies to usage windows, the borrowed session,
  the diagnosis lines, one reading's effect on the snapshot, and the polling state machine.
- `src/autostart.rs` — the `reg.exe` commands and outcomes, and the first-run offer.
- `src/updater_check.rs` — which copies update themselves, and what each round of the update
  loop does.
- `src/text.rs` — text helpers specified over character sequences.
- `app/` — the shell that does the I/O (registry, SQLite, HTTP, Tauri, threads, clocks) and
  the floating-point fractions, handing plain values to the library.
