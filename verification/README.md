# ouroboros_api

The rules of the Ouroboros HTTP API service, written in Verus and proved
against their contracts:

- `text`: Unicode whitespace trimming, UTF-8 byte lengths, substring search.
- `error`: the service's error type and the status, code and message that
  answer each error.
- `api::v1::users`: user input validation, listing pagination and filters,
  user-id parsing, and the errors of the CRUD endpoints.
- `api::v1::metrics_api`, `metrics::ring_buffer`: the 60-slot history of
  metric snapshots and the query over it.
- `api::v1::ping`, `state`: the pong body, request counters and the
  in-flight gauge.
- `bench`: acceptance of load-test requests, the load generator's run state
  and its status report.
- `config`: configuration and its defaults.

`app/` is the server around the library: Axum routing, PostgreSQL access,
serialization, the WebSocket feed, worker tasks and the per-second reporter.
