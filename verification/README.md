# prometheus_proxy_server

A proxy that lets Prometheus scrape exporters behind NAT, firewalls and private networks. Workers
next to the exporters open outbound WebSocket connections; the server maps ordinary HTTP scrapes
onto those connections and returns what the exporter returned.

The decisions of the server are a verified library. Time, sockets and channels stay outside of it:
the library says what has to happen next, and is told what came of it.

## Layout

- `src/state.rs` holds the state of the server: registered workers, open requests, scrapes in
  flight. `src/model.rs` says what each operation means.
- `src/scrape.rs` carries one scrape from its admission to the reply, with its retries.
- `src/connection.rs` reacts to what happens on a worker's connection.
- `src/routes.rs`, `src/protocol.rs`, `src/metrics.rs`, `src/limits.rs` and `src/config.rs` hold the
  routes, messages, exposed counters, limits and configuration.
- `src/ws.rs`, `src/ws_clients.rs`, `src/handler.rs`, `src/cache.rs`, `src/ws_request.rs` and
  `src/ws_response.rs` serve workers of protocol versions 1 and 2 through a shared cache.
- `src/system.rs` says what can happen to the server with all its scrapes and connections.
  `src/laws.rs`, `src/invariants.rs`, `src/guarantees.rs` and `src/counters.rs` state and prove
  what holds of the whole.
- `src/outside.rs` holds the calls into other crates, with what is claimed of their results.
- `app/` is the program around the library; `tests/` runs the library on concrete values.
