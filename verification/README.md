# net_helper

A terminal network diagnostic tool — UDP send/receive, TCP (optionally
over TLS), WebSocket (`ws://`, `wss://`) and DNS lookups — split into a
verified library and a thin program around it.

`src/` is the library, checked by Verus:

- `args` — the command line: the tool a flag selects, each tool's
  arguments, WebSocket URLs and the handshake URL built from them.
- `editor` — the prompt's line editor (keys, pastes, the cursor).
- `console` (`term`, `pipe`) — the console for a terminal or for pipes:
  polling input, the prompt, line ends, and the rendering of what is
  sent and received; `tty` and `output` are two simpler consoles.
- `frame`, `render`, `text` — line framing, transfer reports, decimal
  and byte-size text, port parsing.
- `session` — the decisions of an interactive session and of its
  receivers.
- `dns` — which resolved addresses are used, and the lookup report.
- `tls` — the rustls client setup (webpki roots, server names) and the
  decisions of the handshake and flush loops.
- `ws` — the opening WebSocket request, with tungstenite.
- `version` — the build-time version stamp (calendar arithmetic).

`app/` is the program: terminal and socket I/O with crossterm, std,
rustls and tungstenite, calling the library for every decision.
`tests/` exercise the library on concrete values.
