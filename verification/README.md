# fmtp

The Flight Message Transfer Protocol (FMTP 2.0, EUROCONTROL) as a Verus library:
the functions in `src/` carry contracts that Verus proves, except four small wrappers
in `src/bytes.rs` (big-endian `u16` conversion through `zerocopy`, and `String`'s
UTF-8 decoding), whose contracts are trusted, not proved.

- `src/packet.rs` — the wire format (5-byte header, payload), the control packets,
  the identification handshake and its check against the configuration.
- `src/connection.rs` — the connection state machine (IDLE … DATA_READY, ERROR) as a
  step function `step`, its executable handlers, the send/receive queues, and the
  protocol properties (ERROR is terminal, identification and association complete
  between peers, timer behaviour in DATA_READY, …).
- `src/event.rs` — events, user commands, and how received packets become events.
- `src/driver.rs`, `src/server.rs` — the decisions of an asynchronous driver (what to
  wait for, which address to connect to next, what to report) and the bookkeeping of
  a server running many connections.
- `src/config.rs`, `src/identifier.rs`, `src/message.rs`, `src/time.rs`,
  `src/error.rs`, `src/bytes.rs` — the values these are built from.

`app/` is the program around the library: a tokio driver per connection, a server
that runs all configured connections, and an HTTP front end (axum) that sends data
and commands to them. `tests/` runs the library on concrete values.

Time is counted in milliseconds on a clock the caller chooses; `app/` counts from the
start of each connection driver.
