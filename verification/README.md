# cheetah_signaling

Verified core of the Cheetah signaling control plane, written in Verus.

- `src/api` — HTTP API rules: errors and Problem Details, authentication
  and scopes, tenant resolution, request limits, rate limiting, the event
  cache behind server-sent events, metrics and their exposition, CORS and
  request-identifier decisions.
- `src/gb` — GB/T 28181 event handling: what each driver event leads to,
  catalog fragment accumulation, media session transitions, admission
  control (coalescing, load shedding, dead-letter redrive).
- `src/migration` — planning the import of devices and channels exported
  from a legacy video platform: record validation, stable identifiers,
  mapping, the outbox events written with each aggregate, cutover lists,
  and the run summary.
- `src/workers.rs`, `src/onvif.rs`, `src/runtime.rs`, `src/ctl.rs` —
  command routing, ONVIF provisioning, runtime bookkeeping and the
  operational client's URL, header and output rules.
- `app/` — the migration planner's command line: reading CSV or JSON
  exports and printing the summary.

Functions carry `requires`/`ensures` contracts; the public `law_*` proof
functions state properties that relate several operations.
