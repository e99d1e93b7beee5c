# rlpx_multiplex

Several RLPx subprotocols over one connection: a primary one, such as `eth`, and satellites that
share the connection with it.

The library under `src/` makes the decisions and is verified with Verus; it does no input or
output.

- `message`: message ids, and how they are shifted on their way to and from the wire.
- `capability`, `p2p`: what the peers share.
- `proxy`, `protocol`: the primary protocol's and a satellite's end of the connection.
- `routing`: which protocol a message from the wire is for.
- `multiplexer`: installing protocols, and the handshake of the primary one.
- `model`, `satellite`: polling a primary protocol and its satellites, as a state machine and as
  the code that follows it.
- `laws`: what holds of the state machine over any number of steps. The laws about ids, routing and
  the handshake stand in `message`, `routing`, `capability` and `multiplexer`.
- `buffer`: what is taken for granted about the buffers of the `bytes` crate.

`app/` puts streams, sinks and channels around the library: it polls what the library asks it to
poll and sends what the library asks it to send.
