# waveline

A terminal player for SoundCloud and Mixcloud, whose core is verified with
Verus.

- `src/` — the verified library: the application state machine (`app`), the
  unified track model (`model`), the provider logic that turns API answers
  into tracks and playable streams (`providers`: SoundCloud, Mixcloud, HLS),
  the stream-info decoding (`b64`), text helpers (`text`), JSON values
  (`json`), the click map and mouse dispatch (`ui`), key bindings and the command line (`frontend`),
  the decisions of the playback worker (`player`), PCM scaling (`audio`), the
  media-key status (`mpris`), handles (`config`) and the colour theme.
  Each public function states its result in `ensures`; the `law_*` proof
  functions state properties that span several calls.
- `app/` — the program around it: terminal and drawing (ratatui, crossterm),
  HTTP requests (ureq), JSON decoding (serde_json), decoding and audio output
  (symphonia and a system PCM player), the MPRIS server and the config file.
- `tests/` — tests of the library on concrete values.
