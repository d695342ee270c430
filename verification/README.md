# iradio-bridge

Internet radio → Dante AoIP bridge for the Inferno appliance, with its rules
proved in Verus.

- `src/` — the verified library: ICY metadata stripping (`icy`), the stream
  fetcher's ring buffer, `icy-metaint` parsing, backoff and reconnect policy
  (`stream`), stations, favourites, the one-player-per-slot registry and the
  per-slot settings (`state`), the ALSA write/recovery protocol (`alsa`),
  generation of the `pcm.inferno_iradio_N` blocks (`alsa_setup`), RadioBrowser
  requests and records (`radiobrowser`), Basic authentication (`auth`),
  settings and their defaults (`config`), API refusals (`api`), decode-loop
  decisions and channel (de)interleaving (`decode`), and text helpers (`text`).
- `app/` — the program around it: HTTP server, HTTP streaming, symphonia
  decoding, rubato resampling, ALSA calls, files and the floating-point audio
  chain.
- `tests/` — tests of the library.
