# yapper

Yapper is a desktop dictation tool: hold a shortcut, speak, and the transcript is
cleaned up and typed into the focused application. This crate holds its logic as a
library verified with Verus, and the desktop services around it.

## Layout

- `src/` — the verified library. Every public function carries a contract proved by
  Verus.
  - `postprocess`: spoken punctuation and key commands, punctuation repair, corrections,
    dictionary terms, tone presets, and the pipeline that runs them in order.
  - `paste`: destination identity, the clipboard/keyboard plan for a transcript, and its
    clipboard form.
  - `dictation`, `recording`: retained recording jobs (expiry, the five-job limit,
    retry reservation, eviction), the refusals to start or stop a recording, background
    commits (each sample is transcribed once), delivery of finished text, and how speech
    segments are stitched for transcription.
  - `sidecar`, `remote`, `session`, `engine`: the event queue of the inference process,
    the reconnecting remote bridge (its waits, the handling of each command, and the
    auth-then-configuration frames that open every connection), engine start/stop guards and status, the crash
    watchdog and its restart gate, idle unloading, model loading, the recognition
    vocabulary, and the live-preview step (when to feed audio, how far the cursor moves,
    and the draining of queued preview results).
  - `db`, `devices`, `hud`, `navigation`, `node`, `shortcuts`, `gpu`, `icon`,
    `platform`: settings records and dictionary files, microphones, the desktop widget,
    web-view navigation, the local processing server, global shortcuts, the NVIDIA
    runtime bundle, window icons and process environment.
  - `text`, `numbers`, `sort`, `regex_engine`, `errors`: string and number helpers with
    exact specifications, a stable sort, and the trusted interface to the `regex` crate.
- `tests/` — tests of the library on concrete values.
- `app/` — ordinary Rust around the library: the SQLite settings store, the inference
  process and remote node, the processing server, the GPU runtime installer, audio
  conditioning and capture, the recording flow and live-preview loop, keyboard and
  clipboard insertion, and serde forms of the library's records.
