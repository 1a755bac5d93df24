# blitz_host

A local control plane for live Blitz desktop windows: agents, test runners
and the `blitz-host` command-line tool attach to a running host over a local
socket, inspect its semantic DOM tree, dispatch UI actions, wait for frames to
settle and capture screenshots.

The library in `src/` is verified with Verus:

- `protocol` — the request and response vocabulary (layout floats are carried
  as their bit patterns);
- `discovery` — choosing the host to attach to: resolution from the list of
  advertised hosts, the probe-driven discovery run, newest-first listing;
- `dom` — a plain model of a document, target resolution and the pre-order
  inspection walk;
- `settle`, `bridge`, `live` — frame settlement, the UI-thread request bridge
  (which gives back the replies owed, each with its channel), and the live
  document with the record of the actions carried out on it;
- `capture` — crop regions, RGBA cropping, PNG encoding (through the `png`
  crate) and capture reports;
- `cli` — reading the tool's command line into a plan per subcommand;
- `host`, `transport` — host policy (debug-control switches, click answers)
  and the wire-level decisions of server and client;
- `tools` — the compact `blitz-host` tool of the transport crate and
  `blitz-inspect`, read into plans;
- `laws` — properties that span several operations.

`app/` holds what stays outside the verified library: the socket server and
client, file-system discovery, the conversion from a live `blitz_dom`
document, rendering, JSON (serde) forms of the protocol, sending the bridge's
replies, and `main` (started as `blitz-inspect` or `blitz-host-transport` it
runs that compact tool).
