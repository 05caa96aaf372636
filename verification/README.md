# renderrelay

Message schemas and handshake logic of the Render Relay Protocol (RRP):
server-rendered streaming to TVs and displays. The renderer streams video; the
viewer plays it and forwards remote-control input over a WebSocket.

The library in `src/` is verified with Verus:

- `message` — the RRP messages; `RrpMessage::parse` and `to_json` go through
  the JSON value model in `json`, and their contracts say exactly which
  message a JSON value reads as and which value a message is written as.
- `wire` — that reading and writing as mathematics, with the proof that
  reading the value written for any message gives the message back, and that
  an object of an unknown `"type"` reads as `Unknown`.
- `client`, `server` — the two sides of the handshake
  (`start` → `init` → `join` → `stream_ready`) as state machines from a frame
  to the next step.
- `version` — the order of version strings used to choose the highest
  version both sides support, with the proof that it is a total preorder.
- `session`, `types`, `error` — what a handshake settles, the protocol's
  enumerations and capabilities, and the error types.

`app/` runs those state machines over tungstenite WebSockets (`RrpClient`,
`RrpListener`, `RrpConnection`) and gives the error type a `Display` form.
