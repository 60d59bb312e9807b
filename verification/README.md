# peer_network

Peers that find each other through a bootstrap node and elect a leader by the
largest random number.

- `src/` is the verified library: leader election (`election`), random draws
  (`randomness`), websocket URLs and local addresses (`text`), the messages and
  decisions of a peer of the fully connected network (`message`, `peer`,
  `network`), the bootstrap node's registry (`bootstrap`) and the peer node's
  state (`peer_node`).
- `app/` runs the three programs (`bootstrap`, `node`, `peer`) over tokio and
  websockets, with the JSON forms of the messages.

Every connection between peers starts with a greeting (`PeerMessage` with the
sender's identifier); the numbers that follow on that connection count as the
sender's votes in the election, and a peer connected to is recorded under the
identifier its greeting gives.
