# rescribe

A relay for live translations: text arrives over HTTP (`/queue`, `/translate`
through DeepL) or a TCP feed, is pushed to websocket clients and spoken aloud.

- `src/` is the verified library: TCP frame reading (`framing`), the
  packets and decisions of the HTTP side (`http`), speech-engine decisions and
  the VOICEVOX query address (`tts`), percent-encoding of query values
  (`query`), the decisions of the relay loops (`relay`), the JSON path of
  stored translations (`db`) and the command-line settings (`cli`).
- `app/` is the program around it: the tokio/axum server, the DeepL and
  VOICEVOX requests, the piper process, SQLite and audio playback.
- `tests/` runs the library on concrete values.
