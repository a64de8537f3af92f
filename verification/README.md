# audio_snip

The rules behind a desktop tool that extracts the audio of a video, as a library whose
behaviour is stated in contracts and proved with Verus.

- `src/` is the library.
  - What is accepted: `rules` (videos, formats, times), `paths`, `text`, `number`, `error`.
  - Extraction: `output` (where the audio goes), `extract` (the call of FFmpeg and what happens
    while it runs), `waveform`, `probe` and `args` (finding and calling FFmpeg's programs).
  - The media server: `registry` (what may be served), `range`, `server`, `direct` (files),
    `transcode` and `task` (videos that browsers cannot play), `mp4`, `playlist` and `handlers`.
- `tests/` runs the library on concrete values.
- `app/` is the application around it: the commands of the front end, the processes, the HTTP
  server, and everything that computes with floating-point numbers.

The library looks at nothing outside itself. Whether a file exists, what a program printed and
what a read brought are handed to it as values, and it says what to do next.

How a path is taken apart is up to the host: the library works on a path whose parts are known, and
finds the parts itself where paths are separated by `/`. The trusted calls are `str::to_lowercase`, `String::from_utf8_lossy`,
`String::push` and `HeaderValue::to_str` of the `http` crate; each is named where it is made.
