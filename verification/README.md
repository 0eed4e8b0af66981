# mediaflick_playback

The playback-control logic of a Jellyfin desktop player that hands streams
to mpv or MPC-HC, written in Verus. The functions in `src/` carry contracts that Verus
proves, except a few marked `external_body` that only call the standard
library (the clock, `String::push`, lossy UTF-8 decoding); their
contracts, where they have one, are trusted.

## Layout

- `src/` — the verified library.
  - Text and URLs: `text`, `url`, `numbers`, `headers` (request headers,
    tokens, mpv string lists).
  - Requests and commands: `model`, `commands` (the `loadfile` command),
    `external` (command lines for an external mpv), `input` (mpv key
    bindings), `players` (player and library paths), `ipc` (request ids,
    replies, observed properties).
  - The mpv session: `transition` (loads, activation, finishing, the
    next-episode handoff), `properties` (what a property change does),
    `startup` (the resume seek), `segments` and `skipper` (segment
    prompts, countdowns and skips), `markers` and `chapters` (segment
    markers in the chapter list), `tracks`, `context` (late playback
    metadata and its registry), `session` (all of it together, driven by
    mpv events), `coordinator`.
  - Reporting to the server: `reporter`.
  - MPC-HC: `mpchc` (URLs, track indexes, the copy-data wire format),
    `mpchc_session`, `mpchc_skip`.
  - Overlay frames: `playback`.
- `tests/` — tests of the library.
- `app/` — a small command-line front end: it reads a launch description,
  starts an external mpv and reports playback to the server. Process
  handling, sockets, HTTP and floating-point conversions live here.

Times inside the library are milliseconds on a clock the caller supplies,
and positions are Jellyfin ticks (100 ns).
