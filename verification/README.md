# o_sovereign

Components of the O-Sovereign agent system, written in Verus: each public function of the
library states in its contract what it does, and Verus proves it.

- `src/` — the verified library: protocols and their detection, the cognitive cleaner and the
  Jarvis safety breaker, rate limiting, authentication, audit logging, configuration, the event
  bus, plugins, concurrency and distributed locks, agent state, caches, prompts, retrieval,
  behaviour windows and takeovers, the code-generation provider's reply handling, and the text helpers they share (`text.rs`, `assoc.rs`).
  Laws that span several calls are public proof functions named `law_*`.
- `tests/` — tests run against the compiled library.
- `app/` — the program side: files, clocks, threads, JSON, fractional statistics and the
  handlers users plug in.
