# getType, verified core

getType is a macOS menu bar dictation app: hold a hotkey, speak, and the Groq
transcript is pasted at the cursor. This crate holds its decision logic, proved with
Verus; `app/` is the Tauri shell around it (windows, tray, audio device, HTTP,
keychain, clipboard).

- `src/recorder.rs` — recording state and action generations: Escape cancels the
  whole action by making its generation stale.
- `src/resample.rs`, `src/preprocess.rs` — first-channel extraction, linear
  resampling to 16 kHz, silence trimming.
- `src/hotkey.rs` — parsing the stored shortcut text.
- `src/history.rs` — transcript history (newest first, 50 entries, unique ids).
- `src/llm.rs`, `src/stt.rs`, `src/verify.rs` — what goes into each Groq request
  and what each reply means for the UI; `after_transcription` discards the result
  of a stale action, so a cancelled transcription is neither recorded nor pasted.
- `src/output.rs`, `src/pill.rs`, `src/tray.rs` — clipboard/paste plan, the pill's
  delayed hide, tray clicks and window closing.
- `src/settings.rs`, `src/log.rs`, `src/permissions.rs`, `src/text.rs` — config
  defaults, key masking, log lines, permission words, string helpers.

The public `law_*` proof functions state the properties that hold across calls.
