# tokimo-package-hls

Planning and bookkeeping for HLS transcoding sessions, verified with Verus.

- `src/` is the library. Every function states what it returns, and Verus proves it, but for
  the few calls into std, `serde_json` and `uuid` whose contracts are taken on trust.
  - `transcode_decision`: whether a client can play a file directly, and why not
  - `hw_detect`, `pipeline`, `ffmpeg`: which hardware is used, and what the transcoder is told
  - `playlist`, `segments`: where a file is cut, and how its segments are named
  - `matroska`: the keyframes that the index of a Matroska file lists
  - `session`, `manager`: sessions, their passes, and the table of all sessions
  - `text`, `number`, `json`: what the others stand on
- `app/` is what runs: files, processes, timers and the calls into `tokimo-package-ffmpeg`.
- `tests/` runs the library on concrete values.

Times are whole numbers of nanoseconds. Doubles that are only carried through, such as levels
and frame rates, are held as bit patterns with the text that messages show for them.
