# network-bridge-proxy

An HTTP/HTTPS tunnel proxy. `CONNECT` requests are answered at the TCP
level and tunnelled; other requests are forwarded through an HTTP client.
Connections, errors and transferred bytes are counted in prometheus
counters, which an optional metrics server exposes at `GET /metrics`.

Layout:

- `src/` — the library, verified with Verus: reading request heads
  (`request`), the answers to tunnel and HTTP requests and header
  forwarding (`proxy`), settling a finished tunnel (`tunnel`), the metrics
  and their slot (`metrics`), the prometheus calls they rest on
  (`counters`), and the configuration (`config`).
- `app/` — the program: command line, configuration file, logging,
  sockets, the HTTP stack and the metrics server.
- `tests/` — tests of the library.
