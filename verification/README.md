# shutdown_helper

A small service that powers a machine off when it receives `POST /shutdown`
with the configured `X-Auth-Token`. The decisions are a Verus-verified library
under `src/`; `app/` holds the process around it (sockets, files, environment,
logging, the Windows service glue and the optional axum server).

- `src/request.rs`: what a connection is answered, from the bytes read and the
  expected token (parsing through `httparse` into slices of the bytes read,
  with no heap allocation; token comparison through `constant_time_eq`).
- `src/handler.rs`: the answers of the axum endpoint.
- `src/server_loop.rs`: settings from the environment and the listening loop,
  which shuts down once, on the first authorized request.
- `src/logfile.rs`: the per-run log file name, chosen so that it is none of
  the names already in the log directory.
- `src/service.rs`: answers to service-manager control requests and the status
  reported.
- `src/config.rs`: the configuration and its default.
- `src/bytes.rs`, `src/http.rs`: byte comparisons and the parsed request head.
