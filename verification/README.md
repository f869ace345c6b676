# arc_devtools

The decision and formatting logic of a command-line client that drives the Arc browser
over the Chrome DevTools Protocol, verified with Verus.

- `src/` — the verified library:
  - `text` — characters, trimming, splitting, decimal numbers;
  - `http` — framing of the HTTP/1.1 exchange with the DevTools endpoint;
  - `json` — the JSON documents that the protocol exchanges, and their compact and
    pretty-printed text, which `serde_json` writes;
  - `browser` — where the WebSocket URL comes from, the debugging port, the
    `DevToolsActivePort` file, and the endpoint's replies;
  - `connect` — the state machine that probes Arc and relaunches it with debugging;
  - `console`, `network`, `evaluate`, `snapshot`, `performance` — what protocol events
    and replies mean for each command, and their text and JSON reports;
  - `window` — how long each read of a capture window may wait, and when it is over;
  - `install` — home-relative skill directories.
- `app/` — the I/O around it: sockets, processes, files, the protocol drivers, and the
  floating-point figures of the reports (sizes, times, timings and heap sizes), which
  it rounds or formats before the library lays the reports out.
- `tests/` — tests of the library.
