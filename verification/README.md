# llmfleet

Fleet-level batch dispatcher for LLM APIs: requests from many callers are pooled and
routed, call by call, to a provider's synchronous API (low latency) or to its batch
API (discounted).

- `src/` is the dispatcher as a verified state machine. It routes submissions, gathers
  batches by size and window, matches the backend's results to the callers, drains on
  shutdown and counts. It neither waits nor calls anybody. `src/flusher.rs` says what each
  call does to the state; `src/laws.rs` proves what holds of the whole: every accepted
  submission is answered once and in order, unless the flusher is given up under it, which
  drops what is pending; the backend gets every request once and in order, with the same
  exception; a shutdown serves what is pending, refuses what comes later and comes to an
  end; batches keep to their size and window; and each caller gets their own result.
- `src/trusted.rs` holds all that is taken on trust: cloning a `serde_json::Value`, the
  form of a random `uuid`, and two functions of `std::time::Duration`.
- `app/` runs the state machine on tokio: the asynchronous `Backend` trait, the flusher
  task, timers and reply channels.
- `tests/` drives the state machine with an echo backend and a clock of its own.
