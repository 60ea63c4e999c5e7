# http_tunnel

An HTTP `CONNECT` tunnel whose handshake and relay logic is verified with Verus.

- `src/text.rs`: string searching, splitting, trimming and decimal notation,
  with specifications over character sequences.
- `src/buffer.rs`: the `bytes::BytesMut` buffer as the library sees it.
- `src/codec.rs`: parsing of `CONNECT` requests, decoding of a client buffer
  and encoding of the answer.
- `src/tunnel.rs`: the tunnel's results, targets, the handshake state machine
  and the relay's decisions, with the laws that runs of the handshake obey.
- `app/`: the server around the library: sockets, tasks, `tokio_util` framing
  and configuration types.
