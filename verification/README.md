# soroscope_core

The core of a contract simulation server, written in Verus: what each function
returns is stated in its contract and proved.

- `logging` reads log formats and level directives, plans the log layer, writes
  logfmt lines and reads trace identifiers.
- `webhooks` and `webhook_validation` sign and authenticate webhook requests.
- `leader_lock` decides the steps of a Redis lease that elects one leader.
- `task_queue` admits background tasks and broadcasts telemetry events, as plain
  states that `app/` shares behind locks.
- `grpc` and `pem` translate simulation events for streaming clients and load
  certificate chains.
- `metrics` declares the exported metric families; `descriptor` tells their names
  apart.
- `text`, `json`, `clock`, `tokens` and `ws` hold what the others share.

`app/` is the ordinary Rust around the library: environment, files, sockets,
Redis and the asynchronous runtime.
