# mctest

A UDP multicast testing tool: join a multicast group on every local IPv4
interface, watch the datagrams that arrive, send test messages, search the
capture and save or load it as CSV.

`src/` is the verified library (Verus):

- `util.rs` — the hex dump and printable-ASCII renderings of a payload, and
  hex decoding, with the proof that a hex dump decodes back to its bytes.
- `text.rs` — character lists, substring search, decimal rendering and
  unsigned decimal parsing, and the few std text functions the tool calls.
- `time.rs` — the Gregorian date and time of day an instant is shown as.
- `data.rs` — captured messages, their table columns (text, width, order)
  and the three-field rows a capture is saved as and read back from.
- `listener.rs` — the listener's state machine: joining, sending, stopping,
  and the registration report.
- `app.rs` — the window's state and its reaction to every message, with the
  invariant it keeps and the search and capture-limit laws.

`app/` is the program around it: the cosmic window, the tokio/socket2
network task and the csvlib capture files. The window toolkit (libcosmic)
and csvlib are not published on crates.io, so `Cargo.toml` names neither;
building the program needs both added from their repositories.
