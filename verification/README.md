# mutsuki_link

A link layer between devices, for any transport: identities and protocol negotiation, typed
control frames, sessions with multiplexed channels, realtime datagrams, pairing and trust,
discovery, reconnects and resumption. What it decides is verified with Verus; what touches the
network, the disk or the clock stays outside.

## Layout

- `src/` is the verified library. Its functions state what they return and what they change.
  What is shared with other threads may change at any time: there they state what was asked, and
  what follows from the answer.
  - Frames: `control`, `control_wire`, `control_codec`, `data`, `transport`, `framing`, `bytes`,
    `text`.
  - Identity and negotiation: `identity`, `protocol_ids`, `protocol`, `negotiation`, `channel`,
    `channel_map`.
  - Sessions: `session`, `session_events`, `mux`, `mux_model`, `liveness`, `reconnect`, `resume`,
    `budget`.
  - Datagrams: `realtime`, `realtime_queue`, `realtime_model`, `datagram_receive`.
  - Security: `security`, `pairing`, `pairing_session`, `pairing_limits`, `attempt_log`, `trust`,
    `trust_table`, `digest`.
  - Reaching peers: `selection`, `discovery`, `mdns`, `memory_transport`, `tcp`, `local`, `quic`,
    `pool`, `permits`, `app_endpoint`.
  - Laws that hold of several operations stand beside them, or in `control_laws`, `mux_laws` and
    `realtime_laws`.
- `app/` is ordinary Rust around the library: the tasks of a framed stream, TCP, local sockets,
  QUIC, multicast DNS, trust stores in a file and in the system's keyring, leases, and the pool of
  sessions. It asks the library what to do and does it.
- `tests/` run the compiled library.

## What is trusted

A few functions are believed rather than proved, each a single call: SHA-256 (`digest`), the check
that bytes are UTF-8 (`text`), a text in quotation marks (`error`), the capacity of a queue (`mux`),
the two steps of a shared counter (`permits`), and a row of texts from and to JSON (`trust_table`).

Moments and spans of time are nanoseconds on the caller's monotonic clock, unless a name ends in
`unix_ms`.
