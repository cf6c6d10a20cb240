# whispr

The core of a push-to-talk dictation tool: speak, and the transcript is
typed into whatever application has focus. Audio is streamed to a local
speech-to-text gateway over WebSocket; the final transcript has its voice
snippets expanded and is inserted through a tiered fallback (accessibility,
clipboard paste, synthetic typing).

`src/` is the library, written in Verus: its functions carry contracts and
are proved against them. Three small wrappers around std and serde_json
(building a `String` from characters, `str::to_lowercase`, and JSON string
quoting) are trusted: their contracts are taken as given, not proved.

- `protocol` — the wire messages and their JSON encoding.
- `client` — the streaming session as a state machine (start, audio, stop,
  close), with proofs that it never goes back, sends `stop` once and last,
  and does nothing after the end.
- `audio`, `vad` — 16 kHz PCM chunking and the hysteresis of voice activity
  detection; neither depends on how the audio is cut into pushes.
- `dictionary` — snippet expansion (whole-utterance and inline triggers).
- `insert` — the insertion tiers and the order in which they are tried.
- `gateway` — which gateway URLs are managed, where the gateway is found,
  how it is launched, and how its start-up is followed.
- `dictation`, `config` — the dictation lifecycle, UI actions per streaming
  event, the latest transcript, tray and HUD presentation, settings.
- `text` — character-level helpers shared by the above.

`app/` is the desktop shell around the library (Tauri windows and tray,
microphone capture, sockets, processes, clipboard and keyboard); it performs
what the library decides. `tests/` runs the library on concrete cases.
