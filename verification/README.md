# naia_socket

Socket abstractions for naia, with their decisions verified by Verus.

- `src/` is the verified library: socket addresses and packets, the
  dropped-packet resend queue of a WebRTC data channel (with proofs that no
  packet is lost or duplicated, that dropped packets go out oldest first, and
  that every send ends), what a native client makes of a UDP receive, the
  queues of the browser and miniquad clients, the server's channel-based
  sender and receiver (over crossbeam), the decisions of the server's UDP
  loop, and the ping/pong demo logic.
- `app/` is the runtime around it: UDP sockets, threads and the async loop,
  the browser data channel and the miniquad JavaScript bridge, the demo
  client, and the demo server's `main`.
- `tests/` runs the library on concrete values.
