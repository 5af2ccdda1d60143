# biubo_waf

A reverse-proxy web application firewall whose decision logic is written in
Verus and proved against its contracts.

- `src/` is the verified library: rule matching and request screening,
  challenge tokens and their replay store, rate limiting, the circuit breaker,
  the proxy checkpoint (a state machine from request events to actions),
  settings and their environment overrides, metrics, traffic and security
  statistics, the in-memory key-value store behind the MessagePack file,
  ban records, plugins, virtual patches, behaviour metrics, the detection
  prompt and the verdict cache, multipart body reading, the background
  detection queue, the event broadcaster and the cluster's membership,
  elections, shared threat events and configuration sync.
  Calls into outside crates (regex, hmac, sha2, hex, uuid, serde_json,
  rmp-serde, url, dashmap, chrono, tokio's channels) go through small trusted wrappers whose
  contracts are stated next to them; the `law_*` proof functions state the
  properties that hold across calls.
- `app/` is the server around it: the axum routes, the proxy loop that runs
  the checkpoint's actions, background workers, file and network I/O, the
  reputation providers, and the floating-point behaviour scoring.
- `tests/` exercises the library's public functions on concrete values.
